//! Character-sequence vocabulary shared by the rest of the crate: splitting,
//! joining and searching, each with a mathematical definition over `Seq<char>`
//! and an executable counterpart on `&str`.

use vstd::prelude::*;
use vstd::string::*;

verus! {

/// The character that opens and closes a code span.
pub const CODE_DELIMITER: char = '`';

/// Whether the `i`-th piece of a text lies outside its code spans. The text
/// is cut at every code delimiter; the pieces are outside and inside code in
/// turn, the first one outside.
pub open spec fn is_outside_code(i: int) -> bool {
    i % 2 == 0
}

/// The pieces of `s` between occurrences of `sep`, read left to right: every
/// character other than `sep` extends the last piece, and every `sep` opens a
/// new, empty one. There is always at least one piece.
pub open spec fn split(s: Seq<char>, sep: char) -> Seq<Seq<char>>
    decreases s.len(),
{
    if s.len() == 0 {
        seq![Seq::<char>::empty()]
    } else {
        let init = split(s.drop_last(), sep);
        if s.last() == sep {
            init.push(Seq::<char>::empty())
        } else {
            init.drop_last().push(init.last().push(s.last()))
        }
    }
}

/// `parts` written one after another with `sep` between neighbours.
pub open spec fn join(parts: Seq<Seq<char>>, sep: Seq<char>) -> Seq<char>
    decreases parts.len(),
{
    if parts.len() == 0 {
        Seq::<char>::empty()
    } else if parts.len() == 1 {
        parts[0]
    } else {
        join(parts.drop_last(), sep) + sep + parts.last()
    }
}

/// `needle` stands in `s` at index `i`.
pub open spec fn occurs_at(s: Seq<char>, needle: Seq<char>, i: int) -> bool {
    0 <= i && i + needle.len() <= s.len() && s.subrange(i, i + needle.len()) == needle
}

/// `i` is the leftmost index at which `needle` stands in `s`.
pub open spec fn is_first_occurrence(s: Seq<char>, needle: Seq<char>, i: int) -> bool {
    occurs_at(s, needle, i) && forall|j: int| 0 <= j < i ==> !occurs_at(s, needle, j)
}

/// The leftmost index at which `needle` stands in `s`, if it stands anywhere.
pub open spec fn first_occurrence(s: Seq<char>, needle: Seq<char>) -> Option<int> {
    if exists|i: int| is_first_occurrence(s, needle, i) {
        Some(choose|i: int| is_first_occurrence(s, needle, i))
    } else {
        None
    }
}

/// The `i`-th of `parts`, or nothing where there is no such part.
pub open spec fn piece(parts: Seq<Seq<char>>, i: int) -> Seq<char> {
    if 0 <= i < parts.len() {
        parts[i]
    } else {
        Seq::<char>::empty()
    }
}

/// The first `n` rounds of [`interleave`].
pub open spec fn interleave_upto(gaps: Seq<Seq<char>>, fills: Seq<Seq<char>>, n: nat) -> Seq<char>
    decreases n,
{
    if n == 0 {
        Seq::<char>::empty()
    } else {
        interleave_upto(gaps, fills, (n - 1) as nat) + piece(gaps, n - 1) + piece(fills, n - 1)
    }
}

/// `gaps` and `fills` taken in turn, a gap first: the first gap, the first
/// fill, the second gap, the second fill, and so on until both are used up.
pub open spec fn interleave(gaps: Seq<Seq<char>>, fills: Seq<Seq<char>>) -> Seq<char> {
    interleave_upto(
        gaps,
        fills,
        if gaps.len() >= fills.len() {
            gaps.len()
        } else {
            fills.len()
        },
    )
}

/// `i` is the index of the leftmost `c` in `s`.
pub open spec fn is_first_index(s: Seq<char>, c: char, i: int) -> bool {
    0 <= i < s.len() && s[i] == c && forall|j: int| 0 <= j < i ==> s[j] != c
}

/// The index of the leftmost `c` in `s`, if `s` holds one.
pub open spec fn first_index(s: Seq<char>, c: char) -> Option<int> {
    if exists|i: int| is_first_index(s, c, i) {
        Some(choose|i: int| is_first_index(s, c, i))
    } else {
        None
    }
}

/// `i` is the index of the rightmost `c` in `s`.
pub open spec fn is_last_index(s: Seq<char>, c: char, i: int) -> bool {
    0 <= i < s.len() && s[i] == c && forall|j: int| i < j < s.len() ==> s[j] != c
}

/// The index of the rightmost `c` in `s`, if `s` holds one.
pub open spec fn last_index(s: Seq<char>, c: char) -> Option<int> {
    if exists|i: int| is_last_index(s, c, i) {
        Some(choose|i: int| is_last_index(s, c, i))
    } else {
        None
    }
}

/// Splitting never yields an empty list of pieces.
pub proof fn lemma_split_nonempty(s: Seq<char>, sep: char)
    ensures
        split(s, sep).len() >= 1,
    decreases s.len(),
{
    if s.len() > 0 {
        lemma_split_nonempty(s.drop_last(), sep);
    }
}

/// No piece of a split contains the separator.
pub proof fn lemma_split_pieces_free(s: Seq<char>, sep: char)
    ensures
        forall|k: int| 0 <= k < split(s, sep).len() ==> !(#[trigger] split(s, sep)[k]).contains(sep),
    decreases s.len(),
{
    if s.len() > 0 {
        lemma_split_nonempty(s.drop_last(), sep);
        lemma_split_pieces_free(s.drop_last(), sep);
        let init = split(s.drop_last(), sep);
        if s.last() != sep {
            let grown = init.last().push(s.last());
            assert forall|k: int| 0 <= k < split(s, sep).len() implies !(#[trigger] split(
                s,
                sep,
            )[k]).contains(sep) by {
                if k == init.len() - 1 {
                    assert(split(s, sep)[k] == grown);
                    assert forall|j: int| 0 <= j < grown.len() implies grown[j] != sep by {
                        if j < init.last().len() {
                            assert(init.last().contains(init.last()[j]));
                        }
                    }
                } else {
                    assert(split(s, sep)[k] == init[k]);
                }
            }
        } else {
            assert forall|k: int| 0 <= k < split(s, sep).len() implies !(#[trigger] split(
                s,
                sep,
            )[k]).contains(sep) by {
                if k < init.len() {
                    assert(split(s, sep)[k] == init[k]);
                }
            }
        }
    }
}

/// Text without the separator, put behind a text, lengthens the last piece
/// of that text and opens no new one.
pub proof fn lemma_split_extend(s: Seq<char>, tail: Seq<char>, sep: char)
    requires
        !tail.contains(sep),
    ensures
        split(s, sep).len() >= 1,
        split(s + tail, sep) == split(s, sep).drop_last().push(split(s, sep).last() + tail),
    decreases tail.len(),
{
    lemma_split_nonempty(s, sep);
    let pieces = split(s, sep);
    if tail.len() == 0 {
        assert(s + tail =~= s);
        assert(pieces.last() + tail =~= pieces.last());
        assert(pieces.drop_last().push(pieces.last()) =~= pieces);
    } else {
        let front = tail.drop_last();
        assert forall|j: int| 0 <= j < front.len() implies front[j] != sep by {
            assert(tail[j] == front[j]);
            assert(tail.contains(tail[j]));
        }
        assert(tail.contains(tail.last()));
        lemma_split_extend(s, front, sep);
        assert((s + tail).drop_last() =~= s + front);
        assert((s + tail).last() == tail.last());
        let init = split(s + front, sep);
        assert(init.drop_last() =~= pieces.drop_last());
        assert((pieces.last() + front).push(tail.last()) =~= pieces.last() + tail);
    }
}

/// Cutting a joined text at the separator gives the parts back, where there
/// is a part at all and none holds the separator.
pub proof fn lemma_split_join(parts: Seq<Seq<char>>, sep: char)
    requires
        parts.len() >= 1,
        forall|k: int| 0 <= k < parts.len() ==> !(#[trigger] parts[k]).contains(sep),
    ensures
        split(join(parts, seq![sep]), sep) == parts,
    decreases parts.len(),
{
    let glue = seq![sep];
    let empty = Seq::<char>::empty();
    if parts.len() == 1 {
        lemma_split_extend(empty, parts[0], sep);
        assert(empty + parts[0] =~= parts[0]);
        assert(split(empty, sep) =~= seq![empty]);
        assert(split(empty, sep).drop_last().push(empty + parts[0]) =~= parts);
    } else {
        let front = parts.drop_last();
        assert forall|k: int| 0 <= k < front.len() implies !(#[trigger] front[k]).contains(
            sep,
        ) by {
            assert(front[k] == parts[k]);
        }
        lemma_split_join(front, sep);
        let joined = join(front, glue);
        let opened = joined + glue;
        assert(opened.drop_last() =~= joined);
        assert(opened.last() == sep);
        assert(split(opened, sep) == front.push(empty));
        lemma_split_extend(opened, parts.last(), sep);
        assert(front.push(empty).drop_last() =~= front);
        assert(empty + parts.last() =~= parts.last());
        assert(front.push(parts.last()) =~= parts);
        assert(join(parts, glue) =~= opened + parts.last());
    }
}

/// Joining the pieces of a split with the separator gives the text back.
pub proof fn lemma_join_split(s: Seq<char>, sep: char)
    ensures
        join(split(s, sep), seq![sep]) == s,
    decreases s.len(),
{
    if s.len() == 0 {
        assert(split(s, sep) =~= seq![Seq::<char>::empty()]);
        assert(join(split(s, sep), seq![sep]) =~= s);
    } else {
        let front = s.drop_last();
        lemma_join_split(front, sep);
        lemma_split_nonempty(front, sep);
        let init = split(front, sep);
        let glue = seq![sep];
        if s.last() == sep {
            let all = init.push(Seq::<char>::empty());
            assert(all.drop_last() =~= init);
            assert(join(all, glue) =~= front + glue);
            assert(front + glue =~= s);
        } else {
            let grown = init.last().push(s.last());
            let all = init.drop_last().push(grown);
            assert(all.drop_last() =~= init.drop_last());
            if init.len() == 1 {
                assert(join(init, glue) == init[0]);
                assert(join(all, glue) =~= front.push(s.last()));
            } else {
                assert(join(init, glue) == join(init.drop_last(), glue) + glue + init.last());
                assert(join(all, glue) =~= (join(init.drop_last(), glue) + glue
                    + init.last()).push(s.last()));
            }
            assert(front.push(s.last()) =~= s);
        }
    }
}

/// Joining after one more part appends the separator and the part, unless the
/// part is the first.
pub proof fn lemma_join_push(parts: Seq<Seq<char>>, sep: Seq<char>, part: Seq<char>)
    ensures
        join(parts.push(part), sep) == if parts.len() == 0 {
            part
        } else {
            join(parts, sep) + sep + part
        },
{
    assert(parts.push(part).drop_last() =~= parts);
}

/// The characters of `s`, in order.
pub fn chars_of(s: &str) -> (out: Vec<char>)
    ensures
        out@ == s@,
{
    let mut out: Vec<char> = Vec::new();
    for c in it: s.chars()
        invariant
            it.seq() == s@,
            out@ == it.seq().take(it.index() as int),
    {
        out.push(c);
    }
    out
}

/// Whether two texts hold the same characters.
pub fn same_text(a: &str, b: &str) -> (r: bool)
    ensures
        r == (a@ == b@),
{
    a.to_owned() == b.to_owned()
}

/// Whether `s` begins with `prefix`.
pub fn starts_with(s: &str, prefix: &str) -> (r: bool)
    ensures
        r == prefix@.is_prefix_of(s@),
{
    let n: usize = s.unicode_len();
    let m: usize = prefix.unicode_len();
    if m > n {
        return false;
    }
    let head = s.substring_char(0, m);
    let r = same_text(head, prefix);
    proof {
        assert(s@.subrange(0, m as int) =~= s@.take(m as int));
    }
    r
}

/// The index of the first `c` in `chars` at or after `start`. There is none
/// where `start` lies behind the end.
pub fn find_char_from(chars: &Vec<char>, start: usize, c: char) -> (r: Option<usize>)
    ensures
        start > chars.len() ==> r.is_none(),
        start <= chars.len() ==> match r {
            Some(i) => start <= i < chars.len() && first_index(chars@.skip(start as int), c)
                == Some(i - start),
            None => first_index(chars@.skip(start as int), c).is_none(),
        },
{
    if start > chars.len() {
        return None;
    }
    let ghost tail = chars@.skip(start as int);
    let mut i: usize = start;
    while i < chars.len()
        invariant
            start <= i <= chars.len(),
            tail == chars@.skip(start as int),
            forall|j: int| 0 <= j < i - start ==> tail[j] != c,
        decreases chars.len() - i,
    {
        if chars[i] == c {
            proof {
                assert(is_first_index(tail, c, i - start));
                let w = choose|w: int| is_first_index(tail, c, w);
                assert(w == i - start);
            }
            return Some(i);
        }
        i += 1;
    }
    None
}

/// The index of the last `c` in `chars`.
pub fn find_last_char(chars: &Vec<char>, c: char) -> (r: Option<usize>)
    ensures
        match r {
            Some(i) => i < chars.len() && last_index(chars@, c) == Some(i as int),
            None => last_index(chars@, c).is_none(),
        },
{
    let mut i: usize = chars.len();
    while i > 0
        invariant
            i <= chars.len(),
            forall|j: int| i <= j < chars.len() ==> chars@[j] != c,
        decreases i,
    {
        i -= 1;
        if chars[i] == c {
            proof {
                assert(is_last_index(chars@, c, i as int));
                let w = choose|w: int| is_last_index(chars@, c, w);
                assert(w == i);
            }
            return Some(i);
        }
    }
    None
}

/// Whether `needle` stands in `chars` at index `i`.
fn matches_at(chars: &Vec<char>, needle: &Vec<char>, i: usize) -> (r: bool)
    requires
        i + needle.len() <= chars.len(),
    ensures
        r == occurs_at(chars@, needle@, i as int),
{
    let mut k: usize = 0;
    while k < needle.len()
        invariant
            k <= needle.len(),
            i + needle.len() <= chars.len(),
            forall|j: int| 0 <= j < k ==> chars@[i + j] == needle@[j],
        decreases needle.len() - k,
    {
        if chars[i + k] != needle[k] {
            proof {
                let window = chars@.subrange(i as int, i + needle.len());
                assert(window[k as int] != needle@[k as int]);
            }
            return false;
        }
        k += 1;
    }
    proof {
        assert(chars@.subrange(i as int, i + needle.len()) =~= needle@);
    }
    true
}

/// The leftmost index at which `needle` stands in `chars`.
pub fn find_text(chars: &Vec<char>, needle: &Vec<char>) -> (r: Option<usize>)
    ensures
        match r {
            Some(i) => first_occurrence(chars@, needle@) == Some(i as int),
            None => first_occurrence(chars@, needle@).is_none(),
        },
        r matches Some(i) ==> i + needle.len() <= chars.len(),
{
    if needle.len() > chars.len() {
        return None;
    }
    let last: usize = chars.len() - needle.len();
    let mut i: usize = 0;
    loop
        invariant
            last == chars.len() - needle.len(),
            i <= last,
            forall|j: int| 0 <= j < i ==> !occurs_at(chars@, needle@, j),
        decreases last - i,
    {
        if matches_at(chars, needle, i) {
            proof {
                assert(is_first_occurrence(chars@, needle@, i as int));
                let w = choose|w: int| is_first_occurrence(chars@, needle@, w);
                assert(w == i);
            }
            return Some(i);
        }
        if i == last {
            return None;
        }
        i += 1;
    }
}

/// The pieces of `s` between occurrences of `sep`.
pub fn split_char(s: &str, sep: char) -> (parts: Vec<String>)
    ensures
        parts.deep_view() == split(s@, sep),
{
    let chars = chars_of(s);
    let n: usize = chars.len();
    let mut parts: Vec<String> = Vec::new();
    let mut start: usize = 0;
    let mut i: usize = 0;
    proof {
        assert(s@.take(0) =~= Seq::<char>::empty());
        assert(parts.deep_view().push(s@.subrange(0, 0)) =~= seq![Seq::<char>::empty()]);
    }
    while i < n
        invariant
            chars@ == s@,
            n == chars.len(),
            start <= i <= n,
            split(s@.take(i as int), sep) == parts.deep_view().push(
                s@.subrange(start as int, i as int),
            ),
        decreases n - i,
    {
        let ghost done = parts.deep_view();
        let ghost open = s@.subrange(start as int, i as int);
        let ghost next = s@.take(i + 1);
        proof {
            assert(next.drop_last() =~= s@.take(i as int));
            assert(next.last() == s@[i as int]);
            assert(done.push(open).drop_last() =~= done);
        }
        if chars[i] == sep {
            let piece = s.substring_char(start, i).to_owned();
            parts.push(piece);
            start = i + 1;
            proof {
                assert(parts.deep_view() =~= done.push(open));
                assert(s@.subrange(i + 1, i + 1) =~= Seq::<char>::empty());
            }
        } else {
            proof {
                assert(open.push(s@[i as int]) =~= s@.subrange(start as int, i + 1));
            }
        }
        i += 1;
    }
    let ghost done = parts.deep_view();
    let piece = s.substring_char(start, n).to_owned();
    parts.push(piece);
    proof {
        assert(s@.take(n as int) =~= s@);
        assert(parts.deep_view() =~= done.push(s@.subrange(start as int, n as int)));
    }
    parts
}

/// `parts` written one after another with `sep` between neighbours.
pub fn join_with(parts: &Vec<String>, sep: &str) -> (out: String)
    ensures
        out@ == join(parts.deep_view(), sep@),
{
    let mut out = String::new();
    let mut i: usize = 0;
    proof {
        assert(parts.deep_view().take(0) =~= Seq::<Seq<char>>::empty());
    }
    while i < parts.len()
        invariant
            i <= parts.len(),
            out@ == join(parts.deep_view().take(i as int), sep@),
        decreases parts.len() - i,
    {
        proof {
            lemma_join_push(parts.deep_view().take(i as int), sep@, parts.deep_view()[i as int]);
            assert(parts.deep_view().take(i as int).push(parts.deep_view()[i as int])
                =~= parts.deep_view().take(i + 1));
        }
        if i > 0 {
            out.append(sep);
        }
        out.append(parts[i].as_str());
        proof {
            assert(Seq::<char>::empty() + parts.deep_view()[i as int] =~= parts.deep_view()[i as int]);
        }
        i += 1;
    }
    proof {
        assert(parts.deep_view().take(parts.len() as int) =~= parts.deep_view());
    }
    out
}

/// `gaps` and `fills` taken in turn, a gap first.
pub fn weave(gaps: &Vec<String>, fills: &Vec<String>) -> (out: String)
    ensures
        out@ == interleave(gaps.deep_view(), fills.deep_view()),
{
    let rounds: usize = if gaps.len() >= fills.len() {
        gaps.len()
    } else {
        fills.len()
    };
    let mut out = String::new();
    let mut i: usize = 0;
    while i < rounds
        invariant
            i <= rounds,
            rounds >= gaps.len(),
            rounds >= fills.len(),
            out@ == interleave_upto(gaps.deep_view(), fills.deep_view(), i as nat),
        decreases rounds - i,
    {
        let ghost before = out@;
        if i < gaps.len() {
            out.append(gaps[i].as_str());
        }
        if i < fills.len() {
            out.append(fills[i].as_str());
        }
        proof {
            assert(out@ =~= before + piece(gaps.deep_view(), i as int) + piece(
                fills.deep_view(),
                i as int,
            ));
        }
        i += 1;
    }
    out
}

} // verus!

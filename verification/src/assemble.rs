//! Assembly of source notes: the body of a source note is a reading list,
//! one reference per line, and is replaced by the notes that it refers to,
//! in the order of the list.

use crate::note::{format_metadata, metadata_tag, note_views, Note, NoteView};
use crate::text::{
    chars_of, find_char_from, find_text, first_index, first_occurrence, join, join_with,
    lemma_join_push, same_text, split, split_char, starts_with,
};
use vstd::prelude::*;
use vstd::string::*;

verus! {

/// The line that opens the body of an assembled source note.
pub const PREAMBLE: &'static str = "import NoteMeta from \"../components/NoteMeta.astro\"\n\n";

/// What stands between two entries of an assembled source note.
pub const SEPARATOR: &'static str = "\n\n---\n\n";

/// What stands for a reference that leads to no note.
pub const PLACEHOLDER: &'static str = "*not created yet*";

/// A source note with its body assembled, and what the references that led
/// to no note asked for, in order.
#[derive(Debug)]
pub struct Assembled {
    pub note: Note,
    pub missing: Vec<String>,
}

/// The destination of the first hyperlink of a line: the text between the
/// first `](` and the next `)`. `None` where the line holds no such pair.
pub open spec fn link_target(line: Seq<char>) -> Option<Seq<char>> {
    match first_occurrence(line, "]("@) {
        Some(i) => {
            let rest = line.skip(i + "]("@.len());
            match first_index(rest, ')') {
                Some(j) => Some(rest.take(j)),
                None => None,
            }
        },
        None => None,
    }
}

/// The name that a destination is looked up by: the destination without the
/// slash that an internal link begins with.
pub open spec fn note_key(target: Seq<char>) -> Seq<char> {
    if target.len() > 0 && target[0] == '/' {
        target.drop_first()
    } else {
        target
    }
}

/// Whether a line of a source note is a reference.
pub open spec fn is_reference(line: Seq<char>) -> bool {
    "- "@.is_prefix_of(line)
}

/// The references among a list of lines, in order.
pub open spec fn reference_lines(lines: Seq<Seq<char>>) -> Seq<Seq<char>>
    decreases lines.len(),
{
    if lines.len() == 0 {
        Seq::<Seq<char>>::empty()
    } else if is_reference(lines.last()) {
        reference_lines(lines.drop_last()).push(lines.last())
    } else {
        reference_lines(lines.drop_last())
    }
}

/// The references of a body, in order.
pub open spec fn references(body: Seq<char>) -> Seq<Seq<char>> {
    reference_lines(split(body, '\n'))
}

/// `i` is the index of the first note called `name`.
pub open spec fn is_note_index(notes: Seq<NoteView>, name: Seq<char>, i: int) -> bool {
    0 <= i < notes.len() && notes[i].name == name && forall|j: int|
        0 <= j < i ==> notes[j].name != name
}

/// The index of the first note called `name`, if there is one.
pub open spec fn note_index(notes: Seq<NoteView>, name: Seq<char>) -> Option<int> {
    if exists|i: int| is_note_index(notes, name, i) {
        Some(choose|i: int| is_note_index(notes, name, i))
    } else {
        None
    }
}

/// The index of the note that a reference leads to: the first note whose
/// name is the key of the reference's destination.
pub open spec fn resolved(reference: Seq<char>, notes: Seq<NoteView>) -> Option<int> {
    match link_target(reference) {
        Some(target) => note_index(notes, note_key(target)),
        None => None,
    }
}

/// The entry of one note in an assembled body: its metadata tag, an empty
/// line, its body.
pub open spec fn entry(note: NoteView) -> Seq<char> {
    metadata_tag(note) + "\n\n"@ + note.body
}

/// What a reference contributes to the assembled body: the entry of the note
/// that it leads to, or the placeholder where it leads to none.
pub open spec fn segment(reference: Seq<char>, notes: Seq<NoteView>) -> Seq<char> {
    match resolved(reference, notes) {
        Some(i) => entry(notes[i]),
        None => PLACEHOLDER@,
    }
}

/// What a reference that leads to no note asked for: the key of its
/// destination, or the whole line where it holds no hyperlink.
pub open spec fn asked_for(reference: Seq<char>) -> Seq<char> {
    match link_target(reference) {
        Some(target) => note_key(target),
        None => reference,
    }
}

/// The segments of a list of references: one for each, in the same order.
pub open spec fn segments(refs: Seq<Seq<char>>, notes: Seq<NoteView>) -> Seq<Seq<char>> {
    Seq::new(refs.len(), |i: int| segment(refs[i], notes))
}

/// What the references that lead to no note asked for, in order.
pub open spec fn unresolved(refs: Seq<Seq<char>>, notes: Seq<NoteView>) -> Seq<Seq<char>>
    decreases refs.len(),
{
    if refs.len() == 0 {
        Seq::<Seq<char>>::empty()
    } else if resolved(refs.last(), notes).is_none() {
        unresolved(refs.drop_last(), notes).push(asked_for(refs.last()))
    } else {
        unresolved(refs.drop_last(), notes)
    }
}

/// The body of an assembled source note: the preamble, then the segments of
/// the references of `body`, with the separator between them.
pub open spec fn assembled_body(body: Seq<char>, notes: Seq<NoteView>) -> Seq<char> {
    PREAMBLE@ + join(segments(references(body), notes), SEPARATOR@)
}

/// What follows the first `from` parts in a joined text with more than
/// `from` parts: each further part with the separator before it.
pub open spec fn join_rest(parts: Seq<Seq<char>>, sep: Seq<char>, from: int) -> Seq<char>
    decreases parts.len() - from,
{
    if from >= parts.len() {
        Seq::<char>::empty()
    } else {
        sep + parts[from] + join_rest(parts, sep, from + 1)
    }
}

/// A joined text, cut behind its `k`-th part: what the first `k` parts join
/// to, then the rest, part by part.
pub proof fn lemma_join_cut(parts: Seq<Seq<char>>, sep: Seq<char>, k: int)
    requires
        1 <= k <= parts.len(),
    ensures
        join(parts, sep) == join(parts.take(k), sep) + join_rest(parts, sep, k),
    decreases parts.len() - k,
{
    if k == parts.len() {
        assert(parts.take(k) =~= parts);
        assert(join(parts, sep) + Seq::<char>::empty() =~= join(parts, sep));
    } else {
        lemma_join_cut(parts, sep, k + 1);
        lemma_join_push(parts.take(k), sep, parts[k]);
        assert(parts.take(k).push(parts[k]) =~= parts.take(k + 1));
        assert(join(parts.take(k + 1), sep) + join_rest(parts, sep, k + 1) =~= join(
            parts.take(k),
            sep,
        ) + (sep + parts[k] + join_rest(parts, sep, k + 1)));
    }
}

/// Assembly keeps the order of the references: the assembled body is the
/// preamble, the segments of the references before the `k`-th, the segment
/// of the `k`-th, and then those of the references after it.
pub proof fn lemma_reference_order(body: Seq<char>, notes: Seq<NoteView>, k: int)
    requires
        0 <= k < references(body).len(),
    ensures
        segments(references(body), notes).len() == references(body).len(),
        assembled_body(body, notes) == PREAMBLE@ + join(
            segments(references(body).take(k), notes),
            SEPARATOR@,
        ) + (if k == 0 {
            Seq::<char>::empty()
        } else {
            SEPARATOR@
        }) + segment(references(body)[k], notes) + join_rest(
            segments(references(body), notes),
            SEPARATOR@,
            k + 1,
        ),
{
    let refs = references(body);
    let all = segments(refs, notes);
    lemma_join_cut(all, SEPARATOR@, k + 1);
    assert(all.take(k + 1) =~= all.take(k).push(all[k]));
    lemma_join_push(all.take(k), SEPARATOR@, all[k]);
    assert(all.take(k) =~= segments(refs.take(k), notes));
    if k == 0 {
        assert(join(all.take(0), SEPARATOR@) + Seq::<char>::empty() + all[0] =~= all[0]);
    }
    assert(assembled_body(body, notes) =~= PREAMBLE@ + join(all.take(k), SEPARATOR@) + (if k
        == 0 {
        Seq::<char>::empty()
    } else {
        SEPARATOR@
    }) + all[k] + join_rest(all, SEPARATOR@, k + 1));
}

/// A reference that leads to no note contributes the placeholder and nothing
/// else, and every other reference contributes what it would contribute
/// without it.
pub proof fn lemma_missing_reference(refs: Seq<Seq<char>>, notes: Seq<NoteView>, k: int)
    requires
        0 <= k < refs.len(),
        resolved(refs[k], notes).is_none(),
    ensures
        segments(refs, notes)[k] == PLACEHOLDER@,
        forall|i: int|
            0 <= i < refs.len() ==> #[trigger] segments(refs, notes)[i] == segment(refs[i], notes),
        forall|i: int|
            0 <= i < refs.len() && resolved(refs[i], notes).is_some() ==> #[trigger] segments(
                refs,
                notes,
            )[i] == entry(notes[resolved(refs[i], notes).unwrap()]),
{
}

/// The destination of the first hyperlink of a line: the text between the
/// first `](` and the next `)`.
pub fn extract_link<'a>(line: &'a str) -> (target: Option<&'a str>)
    ensures
        target.deep_view() == link_target(line@),
{
    let chars = chars_of(line);
    let opening = chars_of("](");
    match find_text(&chars, &opening) {
        Some(at) => {
            let from: usize = at + opening.len();
            match find_char_from(&chars, from, ')') {
                Some(to) => {
                    let target = line.substring_char(from, to);
                    proof {
                        assert(line@.subrange(from as int, to as int) =~= line@.skip(
                            from as int,
                        ).take(to - from));
                    }
                    Some(target)
                },
                None => None,
            }
        },
        None => None,
    }
}

/// The name that a destination is looked up by.
pub fn key_of<'a>(target: &'a str) -> (key: &'a str)
    ensures
        key@ == note_key(target@),
{
    let n: usize = target.unicode_len();
    if n > 0 && target.get_char(0) == '/' {
        let key = target.substring_char(1, n);
        proof {
            assert(target@.subrange(1, n as int) =~= target@.drop_first());
        }
        key
    } else {
        target
    }
}

/// The index of the first note called `name`.
pub fn find_note(notes: &[Note], name: &str) -> (r: Option<usize>)
    ensures
        match r {
            Some(i) => i < notes.len() && note_index(note_views(notes@), name@) == Some(i as int),
            None => note_index(note_views(notes@), name@).is_none(),
        },
{
    let ghost views = note_views(notes@);
    let mut i: usize = 0;
    while i < notes.len()
        invariant
            i <= notes.len(),
            views == note_views(notes@),
            forall|j: int| 0 <= j < i ==> views[j].name != name@,
        decreases notes.len() - i,
    {
        if same_text(notes[i].name.as_str(), name) {
            proof {
                assert(is_note_index(views, name@, i as int));
                let w = choose|w: int| is_note_index(views, name@, w);
                assert(w == i);
            }
            return Some(i);
        }
        i += 1;
    }
    None
}

/// The entry of one note in an assembled body.
pub fn entry_of(note: &Note) -> (text: String)
    ensures
        text@ == entry(note@),
{
    let mut text = format_metadata(note);
    text.append("\n\n");
    text.append(note.body.as_str());
    text
}

/// Replaces the body of a source note by the notes that it refers to.
///
/// Every line of the body that begins with `- ` is one reference. It leads
/// to the first of `all_notes` whose name is the destination of the line's
/// hyperlink, without the slash that an internal link begins with. The new
/// body is the preamble and then, in the order of the references and with
/// the separator between them, for each reference the metadata tag and the
/// body of its note, or the placeholder where it leads to none. Name and
/// metadata are those of `source_note`. `missing` tells what each reference
/// that led to no note asked for.
pub fn concat_source_note(source_note: &Note, all_notes: &[Note]) -> (assembled: Assembled)
    ensures
        assembled.note@.name == source_note@.name,
        assembled.note@.meta == source_note@.meta,
        assembled.note@.body == assembled_body(source_note@.body, note_views(all_notes@)),
        assembled.missing.deep_view() == unresolved(
            references(source_note@.body),
            note_views(all_notes@),
        ),
{
    let ghost notes = note_views(all_notes@);
    let lines = split_char(source_note.body.as_str(), '\n');
    let ghost all = lines.deep_view();
    let mut entries: Vec<String> = Vec::new();
    let mut missing: Vec<String> = Vec::new();
    let mut i: usize = 0;
    proof {
        assert(entries.deep_view() =~= segments(reference_lines(all.take(0)), notes));
        assert(missing.deep_view() =~= unresolved(reference_lines(all.take(0)), notes));
    }
    while i < lines.len()
        invariant
            i <= lines.len(),
            all == lines.deep_view(),
            notes == note_views(all_notes@),
            entries.deep_view() == segments(reference_lines(all.take(i as int)), notes),
            missing.deep_view() == unresolved(reference_lines(all.take(i as int)), notes),
        decreases lines.len() - i,
    {
        let ghost refs = reference_lines(all.take(i as int));
        let ghost done = entries.deep_view();
        let ghost reported = missing.deep_view();
        let line = lines[i].as_str();
        proof {
            assert(all.take(i + 1).drop_last() =~= all.take(i as int));
            assert(all.take(i + 1).last() == line@);
        }
        if starts_with(line, "- ") {
            proof {
                assert(refs.push(line@).drop_last() =~= refs);
            }
            let found = match extract_link(line) {
                Some(target) => {
                    let key = key_of(target);
                    match find_note(all_notes, key) {
                        Some(at) => Some(at),
                        None => {
                            missing.push(key.to_owned());
                            None
                        },
                    }
                },
                None => {
                    missing.push(line.to_owned());
                    None
                },
            };
            match found {
                Some(at) => {
                    entries.push(entry_of(&all_notes[at]));
                    proof {
                        assert(missing.deep_view() =~= reported);
                    }
                },
                None => {
                    entries.push(PLACEHOLDER.to_owned());
                    proof {
                        assert(missing.deep_view() =~= reported.push(asked_for(line@)));
                    }
                },
            }
            proof {
                assert(entries.deep_view() =~= done.push(segment(line@, notes)));
                assert(entries.deep_view() =~= segments(refs.push(line@), notes));
            }
        }
        i += 1;
    }
    proof {
        assert(all.take(lines.len() as int) =~= all);
    }
    let mut body = PREAMBLE.to_owned();
    body.append(join_with(&entries, SEPARATOR).as_str());
    Assembled {
        note: Note { name: source_note.name.clone(), meta: source_note.meta.clone(), body },
        missing,
    }
}

} // verus!

//! Rewriting of wikilinks, `[[target]]` and `[[target|label]]`, into standard
//! hyperlinks, everywhere but inside code spans.

use crate::pattern::{captures, gaps, group, group_of, regex_captures, regex_gaps};
use crate::text::{
    interleave, is_outside_code, join, join_with, lemma_split_join, lemma_split_nonempty,
    lemma_split_pieces_free, split, split_char, starts_with, weave, CODE_DELIMITER,
};
use vstd::prelude::*;
use vstd::string::*;

verus! {

/// The pattern of a wikilink: the target up to the first `|` or the closing
/// brackets, then an optional `|` and label.
pub const WIKILINK_REGEX: &'static str = "\\[\\[(.+?)(\\|.+?)?\\]\\]";

/// Whether a target leads out of the site.
pub open spec fn is_external(target: Seq<char>) -> bool {
    "https://"@.is_prefix_of(target) || "http://"@.is_prefix_of(target) || "mailto:"@.is_prefix_of(
        target,
    )
}

/// Where a link to `target` leads: the target itself where it is external,
/// else the path of that name under the site's root.
pub open spec fn link_destination(target: Seq<char>) -> Seq<char> {
    if is_external(target) {
        target
    } else {
        "/"@ + target
    }
}

/// The hyperlink for a target and an optional label. Without a label the
/// target is shown.
pub open spec fn link_markup(target: Seq<char>, label: Option<Seq<char>>) -> Seq<char> {
    "["@ + (match label {
        Some(shown) => shown,
        None => target,
    }) + "]("@ + link_destination(target) + ")"@
}

/// The label that a `|label` suffix carries: what follows its first
/// character.
pub open spec fn label_of(suffix: Seq<char>) -> Seq<char> {
    if suffix.len() > 0 {
        suffix.drop_first()
    } else {
        suffix
    }
}

/// The hyperlink that replaces one match of the wikilink pattern: the first
/// group is the target, the second the `|label` suffix. A match without a
/// target stays as it is.
pub open spec fn wikilink_markup(groups: Seq<Option<Seq<char>>>) -> Seq<char> {
    match group(groups, 1) {
        Some(target) => link_markup(
            target,
            match group(groups, 2) {
                Some(suffix) => Some(label_of(suffix)),
                None => None,
            },
        ),
        None => match group(groups, 0) {
            Some(whole) => whole,
            None => Seq::<char>::empty(),
        },
    }
}

/// The hyperlinks that replace a list of matches, in order.
pub open spec fn wikilink_markups(found: Seq<Seq<Option<Seq<char>>>>) -> Seq<Seq<char>> {
    Seq::new(found.len(), |i: int| wikilink_markup(found[i]))
}

/// A text with its wikilinks rewritten, given what lies between the matches
/// of the wikilink pattern and what the matches capture. Where the engine
/// gave neither, the text stays as it is.
pub open spec fn links_rewritten(
    block: Seq<char>,
    between: Option<Seq<Seq<char>>>,
    found: Option<Seq<Seq<Option<Seq<char>>>>>,
) -> Seq<char> {
    match (between, found) {
        (Some(between), Some(found)) => interleave(between, wikilink_markups(found)),
        _ => block,
    }
}

/// A text free of code with its wikilinks rewritten, as the engine finds
/// them in it.
pub open spec fn linked(block: Seq<char>) -> Seq<char> {
    links_rewritten(
        block,
        regex_gaps(WIKILINK_REGEX@, block),
        regex_captures(WIKILINK_REGEX@, block),
    )
}

/// What the pieces of a body become: a piece outside code has its wikilinks
/// rewritten, a piece inside code stays as it is.
pub open spec fn links_outside_code(pieces: Seq<Seq<char>>) -> Seq<Seq<char>> {
    Seq::new(
        pieces.len(),
        |i: int|
            if is_outside_code(i) {
                linked(pieces[i])
            } else {
                pieces[i]
            },
    )
}

/// Rewriting leaves code alone: the rewritten body has as many pieces as the
/// body, and a piece that lies inside a code span is the piece that it was.
pub proof fn lemma_links_skip_code(body: Seq<char>, i: int)
    requires
        0 <= i < split(body, CODE_DELIMITER).len(),
        !is_outside_code(i),
    ensures
        links_outside_code(split(body, CODE_DELIMITER)).len() == split(body, CODE_DELIMITER).len(),
        links_outside_code(split(body, CODE_DELIMITER))[i] == split(body, CODE_DELIMITER)[i],
{
}

/// Where rewriting puts no code delimiter into a piece, the rewritten body
/// is cut where the body was: it has the same number of pieces, those
/// inside code are the pieces that they were, and those outside code are
/// the pieces with their wikilinks rewritten.
pub proof fn lemma_rewritten_pieces(body: Seq<char>)
    requires
        forall|i: int|
            0 <= i < split(body, CODE_DELIMITER).len() && is_outside_code(i) ==> !linked(
                #[trigger] split(body, CODE_DELIMITER)[i],
            ).contains(CODE_DELIMITER),
    ensures
        split(
            join(links_outside_code(split(body, CODE_DELIMITER)), seq![CODE_DELIMITER]),
            CODE_DELIMITER,
        ) == links_outside_code(split(body, CODE_DELIMITER)),
{
    let pieces = split(body, CODE_DELIMITER);
    let after = links_outside_code(pieces);
    lemma_split_nonempty(body, CODE_DELIMITER);
    lemma_split_pieces_free(body, CODE_DELIMITER);
    assert forall|k: int| 0 <= k < after.len() implies !(#[trigger] after[k]).contains(
        CODE_DELIMITER,
    ) by {
        if is_outside_code(k) {
            assert(after[k] == linked(pieces[k]));
        } else {
            assert(after[k] == pieces[k]);
        }
    }
    lemma_split_join(after, CODE_DELIMITER);
}

/// For an internal target, `[[a]]` becomes `[a](/a)` and `[[a|b]]` becomes
/// `[b](/a)`.
pub proof fn lemma_internal_link(target: Seq<char>, label: Seq<char>)
    requires
        !is_external(target),
    ensures
        link_markup(target, None) == "["@ + target + "](/"@ + target + ")"@,
        link_markup(target, Some(label)) == "["@ + label + "](/"@ + target + ")"@,
{
    reveal_strlit("](");
    reveal_strlit("](/");
    reveal_strlit("/");
    assert("](/"@ =~= "]("@ + "/"@);
    assert(link_markup(target, None) =~= "["@ + target + "](/"@ + target + ")"@);
    assert(link_markup(target, Some(label)) =~= "["@ + label + "](/"@ + target + ")"@);
}

/// For a target that begins with `http://`, `https://` or `mailto:`, the
/// destination is the target itself, with nothing put before it.
pub proof fn lemma_external_link(target: Seq<char>, label: Option<Seq<char>>)
    requires
        "https://"@.is_prefix_of(target) || "http://"@.is_prefix_of(target) || "mailto:"@.is_prefix_of(
            target,
        ),
    ensures
        link_destination(target) == target,
        link_markup(target, label) == "["@ + (match label {
            Some(shown) => shown,
            None => target,
        }) + "]("@ + target + ")"@,
{
}

/// In a text whose wikilinks the engine has found, each one with a target is
/// rewritten by the rule of hyperlinks: the result is what lies between the
/// matches and the hyperlinks in turn, and the hyperlink of the `i`-th match
/// shows its label, or its target where it has none, and leads to the target
/// itself where that is external and to `/target` otherwise.
pub proof fn lemma_match_rewritten(
    block: Seq<char>,
    between: Seq<Seq<char>>,
    found: Seq<Seq<Option<Seq<char>>>>,
    i: int,
    target: Seq<char>,
)
    requires
        0 <= i < found.len(),
        group(found[i], 1) == Some(target),
    ensures
        links_rewritten(block, Some(between), Some(found)) == interleave(
            between,
            wikilink_markups(found),
        ),
        wikilink_markups(found).len() == found.len(),
        wikilink_markups(found)[i] == "["@ + (match group(found[i], 2) {
            Some(suffix) => label_of(suffix),
            None => target,
        }) + "]("@ + (if is_external(target) {
            target
        } else {
            "/"@ + target
        }) + ")"@,
{
}

/// Whether a target leads out of the site.
pub fn leads_outside(target: &str) -> (r: bool)
    ensures
        r == is_external(target@),
{
    starts_with(target, "https://") || starts_with(target, "http://") || starts_with(
        target,
        "mailto:",
    )
}

/// The hyperlink for a target and an optional label.
pub fn render_link(target: &str, label: Option<&str>) -> (link: String)
    ensures
        link@ == link_markup(target@, label.deep_view()),
{
    let mut link = "[".to_owned();
    match label {
        Some(shown) => link.append(shown),
        None => link.append(target),
    }
    link.append("](");
    if !leads_outside(target) {
        link.append("/");
    }
    link.append(target);
    link.append(")");
    proof {
        assert(link@ =~= link_markup(target@, label.deep_view()));
    }
    link
}

/// The label that a `|label` suffix carries.
fn strip_bar(suffix: &str) -> (label: &str)
    ensures
        label@ == label_of(suffix@),
{
    let n: usize = suffix.unicode_len();
    if n > 0 {
        let label = suffix.substring_char(1, n);
        proof {
            assert(suffix@.subrange(1, n as int) =~= suffix@.drop_first());
        }
        label
    } else {
        suffix
    }
}

/// The hyperlink that replaces one match of the wikilink pattern.
pub fn render_wikilink(groups: &Vec<Option<String>>) -> (link: String)
    ensures
        link@ == wikilink_markup(groups.deep_view()),
{
    match group_of(groups, 1) {
        Some(target) => match group_of(groups, 2) {
            Some(suffix) => render_link(target, Some(strip_bar(suffix))),
            None => render_link(target, None),
        },
        None => match group_of(groups, 0) {
            Some(whole) => whole.to_owned(),
            None => String::new(),
        },
    }
}

/// Puts a text back together from what lies between its wikilinks and what
/// the wikilinks capture, each wikilink rewritten as a hyperlink.
pub fn weave_links(between: &Vec<String>, found: &Vec<Vec<Option<String>>>) -> (out: String)
    ensures
        out@ == interleave(between.deep_view(), wikilink_markups(found.deep_view())),
{
    let mut links: Vec<String> = Vec::new();
    let mut i: usize = 0;
    while i < found.len()
        invariant
            i <= found.len(),
            links.deep_view() == wikilink_markups(found.deep_view()).take(i as int),
        decreases found.len() - i,
    {
        let ghost before = links.deep_view();
        let link = render_wikilink(&found[i]);
        links.push(link);
        proof {
            assert(links.deep_view() =~= before.push(wikilink_markup(found.deep_view()[i as int])));
            assert(links.deep_view() =~= wikilink_markups(found.deep_view()).take(i + 1));
        }
        i += 1;
    }
    proof {
        assert(links.deep_view() =~= wikilink_markups(found.deep_view()));
    }
    weave(between, &links)
}

/// Rewrites every wikilink of a text that holds no code: `[[target]]`
/// becomes `[target](destination)` and `[[target|label]]` becomes
/// `[label](destination)`, where the destination is the target itself if it
/// is external and `/target` otherwise. Whether the target names a note is
/// not looked at.
pub fn rewrite_links(block: &str) -> (out: String)
    ensures
        out@ == linked(block@),
{
    match (gaps(WIKILINK_REGEX, block), captures(WIKILINK_REGEX, block)) {
        (Some(between), Some(found)) => weave_links(&between, &found),
        _ => block.to_owned(),
    }
}

/// Rewrites the wikilinks of a body as hyperlinks, everywhere but inside
/// code spans. The body is cut at every code delimiter; the pieces at even
/// positions lie outside code and have every wikilink rewritten, the pieces
/// at odd positions lie inside code and pass unchanged; the pieces are then
/// put together with the delimiter between them.
pub fn format_links(body: &str) -> (out: String)
    ensures
        out@ == join(links_outside_code(split(body@, CODE_DELIMITER)), seq![CODE_DELIMITER]),
{
    let pieces = split_char(body, CODE_DELIMITER);
    let ghost all = pieces.deep_view();
    let mut texts: Vec<String> = Vec::new();
    let mut i: usize = 0;
    while i < pieces.len()
        invariant
            i <= pieces.len(),
            all == pieces.deep_view(),
            texts.deep_view() == links_outside_code(all).take(i as int),
        decreases pieces.len() - i,
    {
        let ghost done = texts.deep_view();
        if i % 2 == 0 {
            texts.push(rewrite_links(pieces[i].as_str()));
        } else {
            texts.push(pieces[i].clone());
        }
        proof {
            assert(texts.deep_view() =~= done.push(links_outside_code(all)[i as int]));
            assert(texts.deep_view() =~= links_outside_code(all).take(i + 1));
        }
        i += 1;
    }
    proof {
        assert(texts.deep_view() =~= links_outside_code(all));
        reveal_strlit("`");
        assert("`"@ =~= seq![CODE_DELIMITER]);
    }
    join_with(&texts, "`")
}

} // verus!

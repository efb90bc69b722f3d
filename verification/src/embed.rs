//! Embedding of vector graphics: every embed reference, `![[target]]` or
//! `![[target|label]]`, is replaced by the inlined markup of the asset of
//! that name. The caller loads the assets; a reference to one that it did not
//! hand over is an error.

use crate::pattern::{captures, gaps, group, group_of, regex_captures, regex_gaps};
use crate::svg::{diagnostics, markup, process_svg, xml_events, Diagnostic, DiagnosticView};
use crate::text::{interleave, same_text, weave};
use vstd::prelude::*;
use vstd::string::*;

verus! {

/// The pattern of an embed reference: a wikilink with `!` before it.
pub const WIKILINK_EMBED_REGEX: &'static str = "\\!\\[\\[(.+?)(\\|.+?)?\\]\\]";

/// A vector graphic as loaded: the target that embed references name it by,
/// and the bytes of its file.
#[derive(Debug, PartialEq, Eq)]
pub struct Asset {
    pub name: String,
    pub data: Vec<u8>,
}

/// A text with its embeds inlined, and what was met in the assets on the
/// way, in order.
#[derive(Debug, PartialEq, Eq)]
pub struct Embedded {
    pub body: String,
    pub diagnostics: Vec<Diagnostic>,
}

/// Why embedding failed.
#[derive(Debug, PartialEq, Eq)]
pub enum EmbedError {
    /// An embed reference names this target, and no asset of that name was
    /// handed over.
    MissingAsset(String),
}

/// The mathematical content of an [`Asset`].
pub struct AssetView {
    pub name: Seq<char>,
    pub data: Seq<u8>,
}

/// The mathematical content of an [`Embedded`].
pub struct EmbeddedView {
    pub body: Seq<char>,
    pub diagnostics: Seq<DiagnosticView>,
}

impl View for Asset {
    type V = AssetView;

    open spec fn view(&self) -> AssetView {
        AssetView { name: self.name@, data: self.data@ }
    }
}

impl View for Embedded {
    type V = EmbeddedView;

    open spec fn view(&self) -> EmbeddedView {
        EmbeddedView { body: self.body@, diagnostics: self.diagnostics.deep_view() }
    }
}

/// The views of a list of assets, in order.
pub open spec fn asset_views(assets: Seq<Asset>) -> Seq<AssetView> {
    Seq::new(assets.len(), |i: int| assets[i]@)
}

/// The mathematical content of an embedding's outcome: the embedded text, or
/// the target whose asset is missing.
pub open spec fn outcome_view(outcome: Result<Embedded, EmbedError>) -> Result<
    EmbeddedView,
    Seq<char>,
> {
    match outcome {
        Ok(embedded) => Ok(embedded@),
        Err(EmbedError::MissingAsset(target)) => Err(target@),
    }
}

/// The name of the file that holds the asset for a target.
pub open spec fn asset_file(target: Seq<char>) -> Seq<char> {
    target + ".svg"@
}

/// `i` is the index of the first asset called `name`.
pub open spec fn is_asset_index(assets: Seq<AssetView>, name: Seq<char>, i: int) -> bool {
    0 <= i < assets.len() && assets[i].name == name && forall|j: int|
        0 <= j < i ==> assets[j].name != name
}

/// The index of the first asset called `name`, if there is one.
pub open spec fn asset_index(assets: Seq<AssetView>, name: Seq<char>) -> Option<int> {
    if exists|i: int| is_asset_index(assets, name, i) {
        Some(choose|i: int| is_asset_index(assets, name, i))
    } else {
        None
    }
}

/// Whether a match of the embed pattern names a target without an asset.
pub open spec fn is_missing(groups: Seq<Option<Seq<char>>>, assets: Seq<AssetView>) -> bool {
    group(groups, 1) matches Some(target) && asset_index(assets, target).is_none()
}

/// What replaces one match of the embed pattern: the markup of the asset
/// that its first group names. The label has no effect. A match without a
/// target stays as it is.
pub open spec fn embed_markup(groups: Seq<Option<Seq<char>>>, assets: Seq<AssetView>) -> Seq<
    char,
> {
    match group(groups, 1) {
        Some(target) => match asset_index(assets, target) {
            Some(i) => markup(xml_events(assets[i].data)),
            None => Seq::<char>::empty(),
        },
        None => match group(groups, 0) {
            Some(whole) => whole,
            None => Seq::<char>::empty(),
        },
    }
}

/// What the asset of one match is reported for.
pub open spec fn embed_diagnostics(groups: Seq<Option<Seq<char>>>, assets: Seq<AssetView>) -> Seq<
    DiagnosticView,
> {
    match group(groups, 1) {
        Some(target) => match asset_index(assets, target) {
            Some(i) => diagnostics(xml_events(assets[i].data)),
            None => Seq::<DiagnosticView>::empty(),
        },
        None => Seq::<DiagnosticView>::empty(),
    }
}

/// What replaces each of a list of matches, in order.
pub open spec fn embed_markups(found: Seq<Seq<Option<Seq<char>>>>, assets: Seq<AssetView>) -> Seq<
    Seq<char>,
> {
    Seq::new(found.len(), |i: int| embed_markup(found[i], assets))
}

/// What the assets of a list of matches are reported for, match after
/// match.
pub open spec fn embeds_diagnostics(
    found: Seq<Seq<Option<Seq<char>>>>,
    assets: Seq<AssetView>,
) -> Seq<DiagnosticView>
    decreases found.len(),
{
    if found.len() == 0 {
        Seq::<DiagnosticView>::empty()
    } else {
        embeds_diagnostics(found.drop_last(), assets) + embed_diagnostics(found.last(), assets)
    }
}

/// The target of the leftmost match whose asset is missing, if any is.
pub open spec fn first_missing(found: Seq<Seq<Option<Seq<char>>>>, assets: Seq<AssetView>) -> Option<
    Seq<char>,
>
    decreases found.len(),
{
    if found.len() == 0 {
        None
    } else {
        match first_missing(found.drop_last(), assets) {
            Some(target) => Some(target),
            None => if is_missing(found.last(), assets) {
                group(found.last(), 1)
            } else {
                None
            },
        }
    }
}

/// The targets that a list of matches names, in order.
pub open spec fn targets(found: Seq<Seq<Option<Seq<char>>>>) -> Seq<Seq<char>>
    decreases found.len(),
{
    if found.len() == 0 {
        Seq::<Seq<char>>::empty()
    } else {
        match group(found.last(), 1) {
            Some(target) => targets(found.drop_last()).push(target),
            None => targets(found.drop_last()),
        }
    }
}

/// The targets that a text's embed references name, given what the matches
/// of the embed pattern capture.
pub open spec fn embed_targets_of(found: Option<Seq<Seq<Option<Seq<char>>>>>) -> Seq<Seq<char>> {
    match found {
        Some(found) => targets(found),
        None => Seq::<Seq<char>>::empty(),
    }
}

/// The outcome of embedding, given what lies between the matches of the
/// embed pattern and what the matches capture: the target of the leftmost
/// match whose asset is missing, or else the text with every match replaced.
/// Where the engine gave neither, the text stays as it is.
pub open spec fn embed_outcome(
    block: Seq<char>,
    assets: Seq<AssetView>,
    between: Option<Seq<Seq<char>>>,
    found: Option<Seq<Seq<Option<Seq<char>>>>>,
) -> Result<EmbeddedView, Seq<char>> {
    match (between, found) {
        (Some(between), Some(found)) => match first_missing(found, assets) {
            Some(target) => Err(target),
            None => Ok(
                EmbeddedView {
                    body: interleave(between, embed_markups(found, assets)),
                    diagnostics: embeds_diagnostics(found, assets),
                },
            ),
        },
        _ => Ok(EmbeddedView { body: block, diagnostics: Seq::<DiagnosticView>::empty() }),
    }
}

/// The outcome of embedding, as the engine finds the embed references in
/// the text.
pub open spec fn embedded(block: Seq<char>, assets: Seq<AssetView>) -> Result<
    EmbeddedView,
    Seq<char>,
> {
    embed_outcome(
        block,
        assets,
        regex_gaps(WIKILINK_EMBED_REGEX@, block),
        regex_captures(WIKILINK_EMBED_REGEX@, block),
    )
}

/// The targets that a text's embed references name, as the engine finds
/// them in it.
pub open spec fn embed_targets_in(block: Seq<char>) -> Seq<Seq<char>> {
    embed_targets_of(regex_captures(WIKILINK_EMBED_REGEX@, block))
}

/// Once a match with a missing asset has been met, it stays the first one
/// however many matches follow.
proof fn lemma_first_missing_stays(
    found: Seq<Seq<Option<Seq<char>>>>,
    assets: Seq<AssetView>,
    n: int,
)
    requires
        0 <= n <= found.len(),
        first_missing(found.take(n), assets).is_some(),
    ensures
        first_missing(found, assets) == first_missing(found.take(n), assets),
    decreases found.len() - n,
{
    if n < found.len() {
        assert(found.take(n + 1).drop_last() =~= found.take(n));
        lemma_first_missing_stays(found, assets, n + 1);
    } else {
        assert(found.take(n) =~= found);
    }
}

/// The name of the file that holds the asset for a target.
pub fn asset_file_name(target: &str) -> (name: String)
    ensures
        name@ == asset_file(target@),
{
    let mut name = target.to_owned();
    name.append(".svg");
    name
}

/// The index of the first asset called `name`.
pub fn find_asset(assets: &Vec<Asset>, name: &str) -> (r: Option<usize>)
    ensures
        match r {
            Some(i) => i < assets.len() && asset_index(asset_views(assets@), name@) == Some(
                i as int,
            ),
            None => asset_index(asset_views(assets@), name@).is_none(),
        },
{
    let ghost views = asset_views(assets@);
    let mut i: usize = 0;
    while i < assets.len()
        invariant
            i <= assets.len(),
            views == asset_views(assets@),
            forall|j: int| 0 <= j < i ==> views[j].name != name@,
        decreases assets.len() - i,
    {
        if same_text(assets[i].name.as_str(), name) {
            proof {
                assert(is_asset_index(views, name@, i as int));
                let w = choose|w: int| is_asset_index(views, name@, w);
                assert(w == i);
            }
            return Some(i);
        }
        i += 1;
    }
    None
}

/// The targets that a list of matches of the embed pattern names, in order.
pub fn targets_of(found: &Vec<Vec<Option<String>>>) -> (names: Vec<String>)
    ensures
        names.deep_view() == targets(found.deep_view()),
{
    let ghost all = found.deep_view();
    let mut names: Vec<String> = Vec::new();
    let mut i: usize = 0;
    proof {
        assert(names.deep_view() =~= targets(all.take(0)));
    }
    while i < found.len()
        invariant
            i <= found.len(),
            all == found.deep_view(),
            names.deep_view() == targets(all.take(i as int)),
        decreases found.len() - i,
    {
        let ghost before = names.deep_view();
        proof {
            assert(all.take(i + 1).drop_last() =~= all.take(i as int));
            assert(all.take(i + 1).last() == found[i as int].deep_view());
        }
        match group_of(&found[i], 1) {
            Some(target) => {
                names.push(target.to_owned());
                proof {
                    assert(names.deep_view() =~= before.push(target@));
                }
            },
            None => {},
        }
        i += 1;
    }
    proof {
        assert(all.take(found.len() as int) =~= all);
    }
    names
}

/// The targets that the embed references of `block` name, in order: the
/// assets that embedding will ask for.
pub fn embed_targets(block: &str) -> (names: Vec<String>)
    ensures
        names.deep_view() == embed_targets_in(block@),
{
    match captures(WIKILINK_EMBED_REGEX, block) {
        Some(found) => targets_of(&found),
        None => {
            let names: Vec<String> = Vec::new();
            proof {
                assert(names.deep_view() =~= Seq::<Seq<char>>::empty());
            }
            names
        },
    }
}

/// Puts a text back together from what lies between its embed references
/// and what the references capture, each reference replaced by the markup
/// of its asset. Fails on the leftmost reference whose asset is not among
/// `assets`.
pub fn weave_embeds(
    between: &Vec<String>,
    found: &Vec<Vec<Option<String>>>,
    assets: &Vec<Asset>,
) -> (outcome: Result<Embedded, EmbedError>)
    ensures
        outcome_view(outcome) == (match first_missing(found.deep_view(), asset_views(assets@)) {
            Some(target) => Err::<EmbeddedView, Seq<char>>(target),
            None => Ok(
                EmbeddedView {
                    body: interleave(
                        between.deep_view(),
                        embed_markups(found.deep_view(), asset_views(assets@)),
                    ),
                    diagnostics: embeds_diagnostics(found.deep_view(), asset_views(assets@)),
                },
            ),
        }),
{
    let ghost all = found.deep_view();
    let ghost views = asset_views(assets@);
    let mut fills: Vec<String> = Vec::new();
    let mut unknown: Vec<Diagnostic> = Vec::new();
    let mut i: usize = 0;
    proof {
        assert(unknown.deep_view() =~= embeds_diagnostics(all.take(0), views));
    }
    while i < found.len()
        invariant
            i <= found.len(),
            all == found.deep_view(),
            views == asset_views(assets@),
            first_missing(all.take(i as int), views).is_none(),
            fills.deep_view() == embed_markups(all, views).take(i as int),
            unknown.deep_view() == embeds_diagnostics(all.take(i as int), views),
        decreases found.len() - i,
    {
        let ghost filled = fills.deep_view();
        let ghost reported = unknown.deep_view();
        proof {
            assert(all.take(i + 1).drop_last() =~= all.take(i as int));
            assert(all.take(i + 1).last() == found[i as int].deep_view());
        }
        match group_of(&found[i], 1) {
            Some(target) => match find_asset(assets, target) {
                Some(at) => {
                    let rendered = process_svg(assets[at].data.as_slice());
                    let mut colors = rendered.diagnostics;
                    let ghost added = colors.deep_view();
                    fills.push(rendered.markup);
                    unknown.append(&mut colors);
                    proof {
                        assert(unknown.deep_view() =~= reported + added);
                    }
                },
                None => {
                    proof {
                        lemma_first_missing_stays(all, views, i + 1);
                    }
                    return Err(EmbedError::MissingAsset(target.to_owned()));
                },
            },
            None => {
                match group_of(&found[i], 0) {
                    Some(whole) => fills.push(whole.to_owned()),
                    None => fills.push(String::new()),
                }
                proof {
                    assert(reported + Seq::<DiagnosticView>::empty() =~= reported);
                }
            },
        }
        proof {
            assert(fills.deep_view() =~= filled.push(embed_markup(all[i as int], views)));
            assert(fills.deep_view() =~= embed_markups(all, views).take(i + 1));
        }
        i += 1;
    }
    proof {
        assert(all.take(found.len() as int) =~= all);
        assert(fills.deep_view() =~= embed_markups(all, views));
    }
    Ok(Embedded { body: weave(between, &fills), diagnostics: unknown })
}

/// Replaces every embed reference of `block`, `![[target]]` or
/// `![[target|label]]`, by the inlined, themed markup of the asset called
/// `target`. The label has no effect on the result. Fails with the target of
/// the leftmost reference whose asset is not among `assets`. Every
/// occurrence counts, whatever stands around it: a body is cut at its code
/// spans by `rewrite_body`, which embeds only outside them.
pub fn embed_svgs(block: &str, assets: &Vec<Asset>) -> (outcome: Result<Embedded, EmbedError>)
    ensures
        outcome_view(outcome) == embedded(block@, asset_views(assets@)),
{
    match (gaps(WIKILINK_EMBED_REGEX, block), captures(WIKILINK_EMBED_REGEX, block)) {
        (Some(between), Some(found)) => weave_embeds(&between, &found, assets),
        _ => {
            let unknown: Vec<Diagnostic> = Vec::new();
            proof {
                assert(unknown.deep_view() =~= Seq::<DiagnosticView>::empty());
            }
            Ok(Embedded { body: block.to_owned(), diagnostics: unknown })
        },
    }
}

} // verus!

//! The stages in their order: a note's body is rewritten outside its code
//! spans, embeds first and links after, and a finished note is written out
//! as a document under its header.

use crate::embed::{
    asset_views, embed_svgs, embed_targets, embed_targets_in, embedded, outcome_view, Asset,
    AssetView, EmbedError, Embedded, EmbeddedView,
};
use crate::links::{linked, rewrite_links};
use crate::note::{document_header, get_frontmatter, Note, NoteView};
use crate::svg::{Diagnostic, DiagnosticView};
use crate::text::{
    is_outside_code, join, join_with, lemma_join_split, same_text, split, split_char,
    CODE_DELIMITER,
};
use vstd::prelude::*;
use vstd::string::*;

verus! {

/// The layout that every document names.
pub const MAIN_LAYOUT: &'static str = "../layouts/MainLayout.astro";

/// The extension of a document's file.
pub const OUTPUT_EXTENSION: &'static str = ".mdx";

/// What the `i`-th piece of a body becomes: outside code its embeds are
/// inlined and then the wikilinks of the result rewritten; inside code it
/// stays as it is. The inlined markup is not cut at code delimiters again.
pub open spec fn piece_rewritten(i: int, piece: Seq<char>, assets: Seq<AssetView>) -> Result<
    EmbeddedView,
    Seq<char>,
> {
    if is_outside_code(i) {
        match embedded(piece, assets) {
            Ok(inlined) => Ok(
                EmbeddedView { body: linked(inlined.body), diagnostics: inlined.diagnostics },
            ),
            Err(target) => Err(target),
        }
    } else {
        Ok(EmbeddedView { body: piece, diagnostics: Seq::<DiagnosticView>::empty() })
    }
}

/// The text that the `i`-th piece becomes; nothing where its rewriting
/// fails.
pub open spec fn piece_text(i: int, piece: Seq<char>, assets: Seq<AssetView>) -> Seq<char> {
    match piece_rewritten(i, piece, assets) {
        Ok(rewritten) => rewritten.body,
        Err(_) => Seq::<char>::empty(),
    }
}

/// What was met while rewriting the `i`-th piece.
pub open spec fn piece_diagnostics(i: int, piece: Seq<char>, assets: Seq<AssetView>) -> Seq<
    DiagnosticView,
> {
    match piece_rewritten(i, piece, assets) {
        Ok(rewritten) => rewritten.diagnostics,
        Err(_) => Seq::<DiagnosticView>::empty(),
    }
}

/// The texts that the pieces become, in order.
pub open spec fn pieces_text(pieces: Seq<Seq<char>>, assets: Seq<AssetView>) -> Seq<Seq<char>> {
    Seq::new(pieces.len(), |i: int| piece_text(i, pieces[i], assets))
}

/// What was met while rewriting the pieces, piece after piece.
pub open spec fn pieces_diagnostics(pieces: Seq<Seq<char>>, assets: Seq<AssetView>) -> Seq<
    DiagnosticView,
>
    decreases pieces.len(),
{
    if pieces.len() == 0 {
        Seq::<DiagnosticView>::empty()
    } else {
        pieces_diagnostics(pieces.drop_last(), assets) + piece_diagnostics(
            pieces.len() - 1,
            pieces.last(),
            assets,
        )
    }
}

/// The target whose asset is missing in the leftmost piece whose rewriting
/// fails, if any fails.
pub open spec fn first_failure(pieces: Seq<Seq<char>>, assets: Seq<AssetView>) -> Option<Seq<char>>
    decreases pieces.len(),
{
    if pieces.len() == 0 {
        None
    } else {
        match first_failure(pieces.drop_last(), assets) {
            Some(target) => Some(target),
            None => match piece_rewritten(pieces.len() - 1, pieces.last(), assets) {
                Ok(_) => None,
                Err(target) => Some(target),
            },
        }
    }
}

/// The outcome of rewriting a body: the target of the first embed reference
/// outside code whose asset is missing, or else the rewritten pieces with
/// the code delimiter between them again.
pub open spec fn rewritten(body: Seq<char>, assets: Seq<AssetView>) -> Result<
    EmbeddedView,
    Seq<char>,
> {
    let pieces = split(body, CODE_DELIMITER);
    match first_failure(pieces, assets) {
        Some(target) => Err(target),
        None => Ok(
            EmbeddedView {
                body: join(pieces_text(pieces, assets), seq![CODE_DELIMITER]),
                diagnostics: pieces_diagnostics(pieces, assets),
            },
        ),
    }
}

/// The targets that the embed references outside code name, piece after
/// piece.
pub open spec fn pieces_targets(pieces: Seq<Seq<char>>) -> Seq<Seq<char>>
    decreases pieces.len(),
{
    if pieces.len() == 0 {
        Seq::<Seq<char>>::empty()
    } else if is_outside_code(pieces.len() - 1) {
        pieces_targets(pieces.drop_last()) + embed_targets_in(pieces.last())
    } else {
        pieces_targets(pieces.drop_last())
    }
}

/// The document of a note: its header block, then its body.
pub open spec fn document(note: NoteView, layout: Seq<char>) -> Seq<char> {
    document_header(note, layout) + note.body
}

/// The name of the file that a note's document is written to.
pub open spec fn document_file(note: NoteView) -> Seq<char> {
    note.name + OUTPUT_EXTENSION@
}

/// Whether one of `scopes` is `scope`.
pub open spec fn has_scope(scopes: Seq<Seq<char>>, scope: Seq<char>) -> bool {
    exists|i: int| 0 <= i < scopes.len() && scopes[i] == scope
}

/// Once the rewriting of a piece has failed, that failure stays the first
/// one however many pieces follow.
proof fn lemma_first_failure_stays(pieces: Seq<Seq<char>>, assets: Seq<AssetView>, n: int)
    requires
        0 <= n <= pieces.len(),
        first_failure(pieces.take(n), assets).is_some(),
    ensures
        first_failure(pieces, assets) == first_failure(pieces.take(n), assets),
    decreases pieces.len() - n,
{
    if n < pieces.len() {
        assert(pieces.take(n + 1).drop_last() =~= pieces.take(n));
        lemma_first_failure_stays(pieces, assets, n + 1);
    } else {
        assert(pieces.take(n) =~= pieces);
    }
}

/// Rewriting leaves code alone: a piece of the body that lies inside a code
/// span is, in the rewritten body, the piece that it was.
pub proof fn lemma_code_untouched(body: Seq<char>, assets: Seq<AssetView>, i: int)
    requires
        0 <= i < split(body, CODE_DELIMITER).len(),
        !is_outside_code(i),
    ensures
        pieces_text(split(body, CODE_DELIMITER), assets)[i] == split(body, CODE_DELIMITER)[i],
        piece_rewritten(i, split(body, CODE_DELIMITER)[i], assets).is_ok(),
{
}

/// A body none of whose pieces changes comes back as it was: cutting at the
/// code delimiter and putting together again loses nothing.
pub proof fn lemma_untouched_body(body: Seq<char>, assets: Seq<AssetView>)
    requires
        first_failure(split(body, CODE_DELIMITER), assets).is_none(),
        forall|i: int|
            0 <= i < split(body, CODE_DELIMITER).len() ==> piece_text(
                i,
                #[trigger] split(body, CODE_DELIMITER)[i],
                assets,
            ) == split(body, CODE_DELIMITER)[i],
    ensures
        rewritten(body, assets) matches Ok(same) && same.body == body,
{
    let pieces = split(body, CODE_DELIMITER);
    lemma_join_split(body, CODE_DELIMITER);
    assert(pieces_text(pieces, assets) =~= pieces);
}

/// Rewrites one piece of a body.
fn rewrite_piece(i: usize, piece: &str, assets: &Vec<Asset>) -> (outcome: Result<
    Embedded,
    EmbedError,
>)
    ensures
        outcome_view(outcome) == piece_rewritten(i as int, piece@, asset_views(assets@)),
{
    if i % 2 == 0 {
        match embed_svgs(piece, assets) {
            Ok(inlined) => Ok(
                Embedded {
                    body: rewrite_links(inlined.body.as_str()),
                    diagnostics: inlined.diagnostics,
                },
            ),
            Err(error) => Err(error),
        }
    } else {
        let unknown: Vec<Diagnostic> = Vec::new();
        proof {
            assert(unknown.deep_view() =~= Seq::<DiagnosticView>::empty());
        }
        Ok(Embedded { body: piece.to_owned(), diagnostics: unknown })
    }
}

/// Rewrites the body of a note. The body is cut at every code delimiter;
/// the pieces at even positions lie outside code and have their embed
/// references inlined and then their wikilinks rewritten, the pieces at odd
/// positions lie inside code and pass unchanged; the pieces are then put
/// together with the delimiter between them. Fails with the target of the
/// first embed reference outside code whose asset is not among `assets`.
pub fn rewrite_body(body: &str, assets: &Vec<Asset>) -> (outcome: Result<Embedded, EmbedError>)
    ensures
        outcome_view(outcome) == rewritten(body@, asset_views(assets@)),
{
    let ghost views = asset_views(assets@);
    let pieces = split_char(body, CODE_DELIMITER);
    let ghost all = pieces.deep_view();
    let mut texts: Vec<String> = Vec::new();
    let mut unknown: Vec<Diagnostic> = Vec::new();
    let mut i: usize = 0;
    proof {
        assert(unknown.deep_view() =~= pieces_diagnostics(all.take(0), views));
    }
    while i < pieces.len()
        invariant
            i <= pieces.len(),
            all == pieces.deep_view(),
            all == split(body@, CODE_DELIMITER),
            views == asset_views(assets@),
            first_failure(all.take(i as int), views).is_none(),
            texts.deep_view() == pieces_text(all, views).take(i as int),
            unknown.deep_view() == pieces_diagnostics(all.take(i as int), views),
        decreases pieces.len() - i,
    {
        let ghost done = texts.deep_view();
        let ghost reported = unknown.deep_view();
        proof {
            assert(all.take(i + 1).drop_last() =~= all.take(i as int));
            assert(all.take(i + 1).last() == pieces[i as int]@);
        }
        match rewrite_piece(i, pieces[i].as_str(), assets) {
            Ok(piece) => {
                let mut colors = piece.diagnostics;
                let ghost added = colors.deep_view();
                texts.push(piece.body);
                unknown.append(&mut colors);
                proof {
                    assert(unknown.deep_view() =~= reported + added);
                    assert(texts.deep_view() =~= done.push(piece_text(i as int, all[i as int], views)));
                    assert(texts.deep_view() =~= pieces_text(all, views).take(i + 1));
                }
            },
            Err(error) => {
                proof {
                    lemma_first_failure_stays(all, views, i + 1);
                }
                return Err(error);
            },
        }
        i += 1;
    }
    proof {
        assert(all.take(pieces.len() as int) =~= all);
        assert(texts.deep_view() =~= pieces_text(all, views));
        reveal_strlit("`");
        assert("`"@ =~= seq![CODE_DELIMITER]);
    }
    Ok(Embedded { body: join_with(&texts, "`"), diagnostics: unknown })
}

/// The targets that the embed references of a body name, outside its code
/// spans and in order: the assets that rewriting the body will ask for.
pub fn body_embed_targets(body: &str) -> (names: Vec<String>)
    ensures
        names.deep_view() == pieces_targets(split(body@, CODE_DELIMITER)),
{
    let pieces = split_char(body, CODE_DELIMITER);
    let ghost all = pieces.deep_view();
    let mut names: Vec<String> = Vec::new();
    let mut i: usize = 0;
    proof {
        assert(names.deep_view() =~= pieces_targets(all.take(0)));
    }
    while i < pieces.len()
        invariant
            i <= pieces.len(),
            all == pieces.deep_view(),
            names.deep_view() == pieces_targets(all.take(i as int)),
        decreases pieces.len() - i,
    {
        let ghost before = names.deep_view();
        proof {
            assert(all.take(i + 1).drop_last() =~= all.take(i as int));
            assert(all.take(i + 1).last() == pieces[i as int]@);
        }
        if i % 2 == 0 {
            let mut found = embed_targets(pieces[i].as_str());
            let ghost added = found.deep_view();
            names.append(&mut found);
            proof {
                assert(names.deep_view() =~= before + added);
            }
        }
        i += 1;
    }
    proof {
        assert(all.take(pieces.len() as int) =~= all);
    }
    names
}

/// The document of a note: its header block for the given layout, then its
/// body.
pub fn render_document(note: &Note, layout: &str) -> (text: String)
    ensures
        text@ == document(note@, layout@),
{
    let mut text = get_frontmatter(note, layout);
    text.append(note.body.as_str());
    text
}

/// The name of the file that a note's document is written to.
pub fn document_file_name(note: &Note) -> (name: String)
    ensures
        name@ == document_file(note@),
{
    let mut name = note.name.clone();
    name.append(OUTPUT_EXTENSION);
    name
}

/// Whether a note's scope is one of `scopes`.
pub fn in_scopes(note: &Note, scopes: &Vec<String>) -> (r: bool)
    ensures
        r == has_scope(scopes.deep_view(), note@.meta.scope),
{
    let mut i: usize = 0;
    while i < scopes.len()
        invariant
            i <= scopes.len(),
            forall|j: int| 0 <= j < i ==> scopes.deep_view()[j] != note@.meta.scope,
        decreases scopes.len() - i,
    {
        if same_text(scopes[i].as_str(), note.meta.scope.as_str()) {
            proof {
                assert(scopes.deep_view()[i as int] == note@.meta.scope);
            }
            return true;
        }
        i += 1;
    }
    false
}

} // verus!

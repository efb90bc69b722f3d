//! Notes and their metadata, and the two renderings of that metadata: the
//! inline tag and the document header block.

use vstd::prelude::*;
use vstd::string::*;

verus! {

/// The two kinds of note.
#[derive(Debug, Clone, Copy, PartialEq, Eq, Structural)]
pub enum ZettelType {
    /// A terminal, standalone note.
    Main,
    /// A note whose body lists references to main notes.
    Source,
}

/// The structured metadata of a note.
#[derive(Debug)]
pub struct NoteMetadata {
    pub source: Option<String>,
    pub scope: String,
    pub note_type: ZettelType,
    pub created: String,
    pub modified: String,
}

/// One entry of the vault.
#[derive(Debug)]
pub struct Note {
    pub name: String,
    pub meta: NoteMetadata,
    pub body: String,
}

/// The mathematical content of a [`NoteMetadata`].
pub struct NoteMetadataView {
    pub source: Option<Seq<char>>,
    pub scope: Seq<char>,
    pub note_type: ZettelType,
    pub created: Seq<char>,
    pub modified: Seq<char>,
}

/// The mathematical content of a [`Note`].
pub struct NoteView {
    pub name: Seq<char>,
    pub meta: NoteMetadataView,
    pub body: Seq<char>,
}

impl View for NoteMetadata {
    type V = NoteMetadataView;

    open spec fn view(&self) -> NoteMetadataView {
        NoteMetadataView {
            source: match self.source {
                Some(url) => Some(url@),
                None => None,
            },
            scope: self.scope@,
            note_type: self.note_type,
            created: self.created@,
            modified: self.modified@,
        }
    }
}

impl View for Note {
    type V = NoteView;

    open spec fn view(&self) -> NoteView {
        NoteView { name: self.name@, meta: self.meta@, body: self.body@ }
    }
}

impl Clone for NoteMetadata {
    fn clone(&self) -> (copy: Self)
        ensures
            copy@ == self@,
    {
        NoteMetadata {
            source: match &self.source {
                Some(url) => Some(url.clone()),
                None => None,
            },
            scope: self.scope.clone(),
            note_type: self.note_type,
            created: self.created.clone(),
            modified: self.modified.clone(),
        }
    }
}

/// The views of a list of notes, in order.
pub open spec fn note_views(notes: Seq<Note>) -> Seq<NoteView> {
    Seq::new(notes.len(), |i: int| notes[i]@)
}

/// The lower-case name of a kind of note.
pub open spec fn type_label(note_type: ZettelType) -> Seq<char> {
    match note_type {
        ZettelType::Main => "main"@,
        ZettelType::Source => "source"@,
    }
}

/// The provenance of a note as text: the URL, or nothing where there is none.
pub open spec fn source_text(source: Option<Seq<char>>) -> Seq<char> {
    match source {
        Some(url) => url,
        None => Seq::<char>::empty(),
    }
}

/// The inline tag that carries a note's name and metadata.
pub open spec fn metadata_tag(note: NoteView) -> Seq<char> {
    "<NoteMeta name=\""@ + note.name + "\" source=\""@ + source_text(note.meta.source)
        + "\" scope=\""@ + note.meta.scope + "\" type=\""@ + type_label(note.meta.note_type)
        + "\" created=\""@ + note.meta.created + "Z\" modified=\""@ + note.meta.modified
        + "Z\" />"@
}

/// The header block that opens a note's document, for the given layout.
pub open spec fn document_header(note: NoteView, layout: Seq<char>) -> Seq<char> {
    "---\nlayout: "@ + layout + "\ntitle: \""@ + note.name + "\"\nsource: \""@ + source_text(
        note.meta.source,
    ) + "\"\nscope: \""@ + note.meta.scope + "\"\ntype: \""@ + type_label(note.meta.note_type)
        + "\"\ncreated: \""@ + note.meta.created + "Z\"\nmodified: \""@ + note.meta.modified
        + "Z\"\n---\n\n"@
}

impl ZettelType {
    /// The lower-case name of this kind of note.
    pub fn label(self) -> (r: &'static str)
        ensures
            r@ == type_label(self),
    {
        match self {
            ZettelType::Main => "main",
            ZettelType::Source => "source",
        }
    }
}

impl NoteMetadata {
    /// The provenance as text: the URL, or nothing where there is none.
    pub fn source_text(&self) -> (r: &str)
        ensures
            r@ == source_text(self@.source),
    {
        match &self.source {
            Some(url) => url.as_str(),
            None => {
                proof {
                    reveal_strlit("");
                    assert(""@ =~= Seq::<char>::empty());
                }
                ""
            },
        }
    }
}

/// Renders a note's name and metadata as one self-closing inline tag.
pub fn format_metadata(note: &Note) -> (tag: String)
    ensures
        tag@ == metadata_tag(note@),
{
    let meta = &note.meta;
    let mut tag = "<NoteMeta name=\"".to_owned();
    tag.append(note.name.as_str());
    tag.append("\" source=\"");
    tag.append(meta.source_text());
    tag.append("\" scope=\"");
    tag.append(meta.scope.as_str());
    tag.append("\" type=\"");
    tag.append(meta.note_type.label());
    tag.append("\" created=\"");
    tag.append(meta.created.as_str());
    tag.append("Z\" modified=\"");
    tag.append(meta.modified.as_str());
    tag.append("Z\" />");
    tag
}

/// Renders a note's name and metadata as the header block of its document,
/// naming the layout that the site renderer is to use.
pub fn get_frontmatter(note: &Note, layout: &str) -> (header: String)
    ensures
        header@ == document_header(note@, layout@),
{
    let meta = &note.meta;
    let mut header = "---\nlayout: ".to_owned();
    header.append(layout);
    header.append("\ntitle: \"");
    header.append(note.name.as_str());
    header.append("\"\nsource: \"");
    header.append(meta.source_text());
    header.append("\"\nscope: \"");
    header.append(meta.scope.as_str());
    header.append("\"\ntype: \"");
    header.append(meta.note_type.label());
    header.append("\"\ncreated: \"");
    header.append(meta.created.as_str());
    header.append("Z\"\nmodified: \"");
    header.append(meta.modified.as_str());
    header.append("Z\"\n---\n\n");
    header
}

} // verus!

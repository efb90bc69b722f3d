//! The note parser: from a file's path and text to a note. The text is split
//! into front matter and body, the front matter is read as a table of
//! fields, and the table is held to the shape of a note's metadata.

use crate::note::{Note, NoteMetadata, NoteMetadataView, NoteView, ZettelType};
use crate::text::{chars_of, find_last_char, last_index, same_text};
use vstd::prelude::*;
use vstd::string::*;

verus! {

/// Why a file is not a note.
#[derive(Debug, Clone, Copy, PartialEq, Eq, Structural)]
pub enum ParseError {
    /// The path has no final segment.
    MissingName,
    /// The text has no front matter.
    MissingFrontmatter,
    /// The front matter does not have the shape of a note's metadata.
    MetadataDeserializationError,
}

/// The value of one field of the front matter, as far as a note reads it.
#[derive(Debug, PartialEq, Eq)]
pub enum FieldValue {
    Null,
    Text(String),
    /// A number, a truth value, a list or a table.
    Other,
}

/// One field of the front matter.
#[derive(Debug, PartialEq, Eq)]
pub struct Field {
    pub key: String,
    pub value: FieldValue,
}

/// What the front matter of a text holds.
#[derive(Debug, PartialEq, Eq)]
pub enum MatterData {
    /// There is no front matter, or it is empty.
    Absent,
    /// A table of fields, in no particular order. Of two fields with the
    /// same key the later one counts.
    Table(Vec<Field>),
    /// Something that is not a table.
    Other,
}

/// A text split into its front matter and what follows it.
#[derive(Debug, PartialEq, Eq)]
pub struct FrontMatter {
    pub data: MatterData,
    pub content: String,
}

/// The mathematical content of a [`FieldValue`].
pub enum FieldValueView {
    Null,
    Text(Seq<char>),
    Other,
}

/// The mathematical content of a [`Field`].
pub struct FieldView {
    pub key: Seq<char>,
    pub value: FieldValueView,
}

/// The mathematical content of a [`MatterData`]: a table is a map from keys
/// to values.
pub enum MatterDataView {
    Absent,
    Table(Map<Seq<char>, FieldValueView>),
    Other,
}

/// The mathematical content of a [`FrontMatter`].
pub struct FrontMatterView {
    pub data: MatterDataView,
    pub content: Seq<char>,
}

impl View for FieldValue {
    type V = FieldValueView;

    open spec fn view(&self) -> FieldValueView {
        match self {
            FieldValue::Null => FieldValueView::Null,
            FieldValue::Text(text) => FieldValueView::Text(text@),
            FieldValue::Other => FieldValueView::Other,
        }
    }
}

impl View for Field {
    type V = FieldView;

    open spec fn view(&self) -> FieldView {
        FieldView { key: self.key@, value: self.value@ }
    }
}

/// The views of a list of fields, in order.
pub open spec fn field_views(fields: Seq<Field>) -> Seq<FieldView> {
    Seq::new(fields.len(), |i: int| fields[i]@)
}

/// The table that a list of fields stands for.
pub open spec fn table_of(fields: Seq<FieldView>) -> Map<Seq<char>, FieldValueView>
    decreases fields.len(),
{
    if fields.len() == 0 {
        Map::empty()
    } else {
        table_of(fields.drop_last()).insert(fields.last().key, fields.last().value)
    }
}

impl View for MatterData {
    type V = MatterDataView;

    open spec fn view(&self) -> MatterDataView {
        match self {
            MatterData::Absent => MatterDataView::Absent,
            MatterData::Table(fields) => MatterDataView::Table(table_of(field_views(fields@))),
            MatterData::Other => MatterDataView::Other,
        }
    }
}

impl View for FrontMatter {
    type V = FrontMatterView;

    open spec fn view(&self) -> FrontMatterView {
        FrontMatterView { data: self.data@, content: self.content@ }
    }
}

/// The mathematical content of a parsing outcome.
pub open spec fn parsed_view(outcome: Result<Note, ParseError>) -> Result<NoteView, ParseError> {
    match outcome {
        Ok(note) => Ok(note@),
        Err(error) => Err(error),
    }
}

/// What the front-matter reader makes of a text: the front matter that
/// stands between the delimiter lines at its start, read as YAML, and the
/// text that follows.
pub uninterp spec fn front_matter(text: Seq<char>) -> FrontMatterView;

/// The final segment of a path: what follows its last `/`.
pub open spec fn file_name(path: Seq<char>) -> Seq<char> {
    match last_index(path, '/') {
        Some(i) => path.skip(i + 1),
        None => path,
    }
}

/// A file name without its extension: what stands before its last `.`, or
/// the whole name where it holds none.
pub open spec fn stem(file_name: Seq<char>) -> Seq<char> {
    match last_index(file_name, '.') {
        Some(i) => file_name.take(i),
        None => file_name,
    }
}

/// The name of the note at a path; `None` where the path has no final
/// segment.
pub open spec fn name_of(path: Seq<char>) -> Option<Seq<char>> {
    if file_name(path).len() == 0 {
        None
    } else {
        Some(stem(file_name(path)))
    }
}

/// Whether a key is one of the five fields of a note's metadata.
pub open spec fn is_known_key(key: Seq<char>) -> bool {
    key == "source"@ || key == "scope"@ || key == "type"@ || key == "created"@ || key
        == "modified"@
}

/// The text of a field; `None` where the table has no such field or the
/// field holds no text.
pub open spec fn text_field(table: Map<Seq<char>, FieldValueView>, key: Seq<char>) -> Option<
    Seq<char>,
> {
    if table.dom().contains(key) {
        match table[key] {
            FieldValueView::Text(text) => Some(text),
            _ => None,
        }
    } else {
        None
    }
}

/// The provenance that a table states: none where the field is absent or
/// null, the URL where it holds text. `None` where it holds anything else.
pub open spec fn source_field(table: Map<Seq<char>, FieldValueView>) -> Option<Option<Seq<char>>> {
    if table.dom().contains("source"@) {
        match table["source"@] {
            FieldValueView::Null => Some(None),
            FieldValueView::Text(url) => Some(Some(url)),
            FieldValueView::Other => None,
        }
    } else {
        Some(None)
    }
}

/// The kind of note that a label names.
pub open spec fn kind_of(label: Seq<char>) -> Option<ZettelType> {
    if label == "main"@ {
        Some(ZettelType::Main)
    } else if label == "source"@ {
        Some(ZettelType::Source)
    } else {
        None
    }
}

/// The metadata that a table states. `None` unless the table has the shape
/// of a note's metadata: no field but the five known ones; `scope`,
/// `created` and `modified` with text; `type` with `main` or `source`;
/// `source` absent, null or with text.
pub open spec fn metadata_of(table: Map<Seq<char>, FieldValueView>) -> Option<NoteMetadataView> {
    if forall|key: Seq<char>| table.dom().contains(key) ==> is_known_key(key) {
        match (
            source_field(table),
            text_field(table, "scope"@),
            text_field(table, "type"@),
            text_field(table, "created"@),
            text_field(table, "modified"@),
        ) {
            (Some(source), Some(scope), Some(label), Some(created), Some(modified)) => match kind_of(
                label,
            ) {
                Some(note_type) => Some(
                    NoteMetadataView { source, scope, note_type, created, modified },
                ),
                None => None,
            },
            _ => None,
        }
    } else {
        None
    }
}

/// The note that a path and a split text make, or the reason why they make
/// none. The name is asked for first, then the front matter, then its shape.
pub open spec fn parsed_note(path: Seq<char>, matter: FrontMatterView) -> Result<
    NoteView,
    ParseError,
> {
    match name_of(path) {
        None => Err(ParseError::MissingName),
        Some(name) => match matter.data {
            MatterDataView::Absent => Err(ParseError::MissingFrontmatter),
            MatterDataView::Other => Err(ParseError::MetadataDeserializationError),
            MatterDataView::Table(table) => match metadata_of(table) {
                Some(meta) => Ok(NoteView { name, meta, body: matter.content }),
                None => Err(ParseError::MetadataDeserializationError),
            },
        },
    }
}

/// A table has exactly the keys of its fields.
pub proof fn lemma_table_keys(fields: Seq<FieldView>, key: Seq<char>)
    ensures
        table_of(fields).dom().contains(key) <==> exists|i: int|
            0 <= i < fields.len() && #[trigger] fields[i].key == key,
    decreases fields.len(),
{
    if fields.len() > 0 {
        let front = fields.drop_last();
        lemma_table_keys(front, key);
        if table_of(fields).dom().contains(key) {
            if fields.last().key == key {
                assert(fields[fields.len() - 1].key == key);
            } else {
                let i = choose|i: int| 0 <= i < front.len() && #[trigger] front[i].key == key;
                assert(fields[i].key == key);
            }
        }
        if exists|i: int| 0 <= i < fields.len() && #[trigger] fields[i].key == key {
            let i = choose|i: int| 0 <= i < fields.len() && #[trigger] fields[i].key == key;
            if i < front.len() {
                assert(front[i].key == key);
            }
        }
    }
}

/// What went wrong, in words.
pub open spec fn error_message(error: ParseError) -> Seq<char> {
    match error {
        ParseError::MissingName => "Encountered a file without a name?"@,
        ParseError::MissingFrontmatter => "The file has no frontmatter"@,
        ParseError::MetadataDeserializationError => "The frontmatter is not a note's metadata"@,
    }
}

impl ParseError {
    /// What went wrong, in words.
    pub fn message(self) -> (text: &'static str)
        ensures
            text@ == error_message(self),
    {
        match self {
            ParseError::MissingName => "Encountered a file without a name?",
            ParseError::MissingFrontmatter => "The file has no frontmatter",
            ParseError::MetadataDeserializationError => "The frontmatter is not a note's metadata",
        }
    }
}

/// Splits a text with `gray_matter::Matter::<YAML>::parse`. Trusted: the
/// result is `front_matter` of the text. `data` is `Absent` where the reader
/// found no front matter, a `Table` where it read a hash, with each value
/// that is null or a string kept and any other marked `Other`, and `Other`
/// where it read anything else; `content` is the reader's content. The
/// fields come in the order in which the hash is walked, which nothing
/// fixes: the contract speaks of the table that they stand for, and a hash
/// holds each key once, so that table does not depend on the order.
#[verifier::external_body]
fn split_front_matter(text: &str) -> (matter: FrontMatter)
    ensures
        matter@ == front_matter(text@),
{
    let parsed = gray_matter::Matter::<gray_matter::engine::YAML>::new().parse(text);
    let data = match parsed.data {
        None => MatterData::Absent,
        Some(gray_matter::Pod::Hash(table)) => MatterData::Table(table.into_iter().map(|(key, value)| Field { key, value: match value {
            gray_matter::Pod::Null => FieldValue::Null,
            gray_matter::Pod::String(text) => FieldValue::Text(text),
            _ => FieldValue::Other,
        } }).collect()),
        Some(_) => MatterData::Other,
    };
    FrontMatter { data, content: parsed.content }
}

/// The name of the note at a path: the final segment of the path, without
/// the extension that follows its last `.`.
pub fn note_name(path: &str) -> (name: Option<String>)
    ensures
        name.deep_view() == name_of(path@),
{
    let chars = chars_of(path);
    let n: usize = chars.len();
    let from: usize = match find_last_char(&chars, '/') {
        Some(i) => i + 1,
        None => 0,
    };
    let file = path.substring_char(from, n);
    proof {
        assert(path@.subrange(from as int, n as int) =~= path@.skip(from as int));
        assert(path@.skip(0) =~= path@);
    }
    if from == n {
        return None;
    }
    let file_chars = chars_of(file);
    match find_last_char(&file_chars, '.') {
        Some(i) => {
            let name = file.substring_char(0, i);
            proof {
                assert(file@.subrange(0, i as int) =~= file@.take(i as int));
            }
            Some(name.to_owned())
        },
        None => Some(file.to_owned()),
    }
}

/// The index of the field that counts for `key`: the last one with that
/// key.
pub fn find_field(fields: &Vec<Field>, key: &str) -> (r: Option<usize>)
    ensures
        match r {
            Some(i) => i < fields.len() && fields[i as int].key@ == key@ && (forall|j: int|
                i < j < fields.len() ==> fields[j].key@ != key@) && table_of(
                field_views(fields@),
            ).dom().contains(key@) && table_of(field_views(fields@))[key@]
                == fields[i as int].value@,
            None => !table_of(field_views(fields@)).dom().contains(key@),
        },
{
    let ghost views = field_views(fields@);
    let mut found: Option<usize> = None;
    let mut i: usize = 0;
    while i < fields.len()
        invariant
            i <= fields.len(),
            views == field_views(fields@),
            match found {
                Some(at) => at < i && fields[at as int].key@ == key@ && (forall|j: int|
                    at < j < i ==> fields[j].key@ != key@) && table_of(
                    views.take(i as int),
                ).dom().contains(key@) && table_of(views.take(i as int))[key@]
                    == fields[at as int].value@,
                None => !table_of(views.take(i as int)).dom().contains(key@),
            },
        decreases fields.len() - i,
    {
        proof {
            assert(views.take(i + 1).drop_last() =~= views.take(i as int));
            assert(views.take(i + 1).last() == fields[i as int]@);
        }
        if same_text(fields[i].key.as_str(), key) {
            found = Some(i);
        }
        i += 1;
    }
    proof {
        assert(views.take(fields.len() as int) =~= views);
    }
    found
}

/// The text of the field `key`.
pub fn text_of<'a>(fields: &'a Vec<Field>, key: &str) -> (text: Option<&'a str>)
    ensures
        text.deep_view() == text_field(table_of(field_views(fields@)), key@),
{
    match find_field(fields, key) {
        Some(i) => match &fields[i].value {
            FieldValue::Text(text) => Some(text.as_str()),
            _ => None,
        },
        None => None,
    }
}

/// Whether a key is one of the five fields of a note's metadata.
pub fn known_key(key: &str) -> (r: bool)
    ensures
        r == is_known_key(key@),
{
    same_text(key, "source") || same_text(key, "scope") || same_text(key, "type") || same_text(
        key,
        "created",
    ) || same_text(key, "modified")
}

/// Whether every field has one of the five known keys.
pub fn only_known_keys(fields: &Vec<Field>) -> (r: bool)
    ensures
        r == (forall|key: Seq<char>|
            table_of(field_views(fields@)).dom().contains(key) ==> is_known_key(key)),
{
    let ghost views = field_views(fields@);
    let mut i: usize = 0;
    while i < fields.len()
        invariant
            i <= fields.len(),
            views == field_views(fields@),
            forall|j: int| 0 <= j < i ==> is_known_key(#[trigger] views[j].key),
        decreases fields.len() - i,
    {
        if !known_key(fields[i].key.as_str()) {
            proof {
                let key = views[i as int].key;
                lemma_table_keys(views, key);
            }
            return false;
        }
        i += 1;
    }
    proof {
        assert forall|key: Seq<char>| table_of(views).dom().contains(key) implies is_known_key(
            key,
        ) by {
            lemma_table_keys(views, key);
            let j = choose|j: int| 0 <= j < views.len() && #[trigger] views[j].key == key;
            assert(is_known_key(views[j].key));
        }
    }
    true
}

/// The kind of note that a label names.
pub fn kind_from(label: &str) -> (kind: Option<ZettelType>)
    ensures
        kind == kind_of(label@),
{
    if same_text(label, "main") {
        Some(ZettelType::Main)
    } else if same_text(label, "source") {
        Some(ZettelType::Source)
    } else {
        None
    }
}

/// The metadata that a table of fields states, if the table has the shape
/// of a note's metadata.
pub fn metadata_from(fields: &Vec<Field>) -> (meta: Option<NoteMetadata>)
    ensures
        match meta {
            Some(meta) => metadata_of(table_of(field_views(fields@))) == Some(meta@),
            None => metadata_of(table_of(field_views(fields@))).is_none(),
        },
{
    if !only_known_keys(fields) {
        return None;
    }
    let source: Option<String> = match find_field(fields, "source") {
        Some(i) => match &fields[i].value {
            FieldValue::Null => None,
            FieldValue::Text(url) => Some(url.clone()),
            FieldValue::Other => {
                return None;
            },
        },
        None => None,
    };
    let scope = match text_of(fields, "scope") {
        Some(text) => text.to_owned(),
        None => {
            return None;
        },
    };
    let note_type = match text_of(fields, "type") {
        Some(label) => match kind_from(label) {
            Some(kind) => kind,
            None => {
                return None;
            },
        },
        None => {
            return None;
        },
    };
    let created = match text_of(fields, "created") {
        Some(text) => text.to_owned(),
        None => {
            return None;
        },
    };
    let modified = match text_of(fields, "modified") {
        Some(text) => text.to_owned(),
        None => {
            return None;
        },
    };
    Some(NoteMetadata { source, scope, note_type, created, modified })
}

/// Makes a note of a path and a split text.
///
/// Fails with `MissingName` where the path has no final segment; else with
/// `MissingFrontmatter` where the text has no front matter; else with
/// `MetadataDeserializationError` where the front matter is no table or the
/// table does not have the shape of a note's metadata. Otherwise the note
/// has the name that the path gives, the metadata that the table states and
/// the split text's content as its body.
pub fn note_from(path: &str, matter: FrontMatter) -> (outcome: Result<Note, ParseError>)
    ensures
        parsed_view(outcome) == parsed_note(path@, matter@),
{
    let name = match note_name(path) {
        Some(name) => name,
        None => {
            return Err(ParseError::MissingName);
        },
    };
    match matter.data {
        MatterData::Absent => Err(ParseError::MissingFrontmatter),
        MatterData::Other => Err(ParseError::MetadataDeserializationError),
        MatterData::Table(fields) => match metadata_from(&fields) {
            Some(meta) => Ok(Note { name, meta, body: matter.content }),
            None => Err(ParseError::MetadataDeserializationError),
        },
    }
}

/// Parses one file of the vault, given its path and its text: the note that
/// the path and the text's front matter and content make.
pub fn read_note(path: &str, content: &str) -> (outcome: Result<Note, ParseError>)
    ensures
        parsed_view(outcome) == parsed_note(path@, front_matter(content@)),
{
    note_from(path, split_front_matter(content))
}

} // verus!

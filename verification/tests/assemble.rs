use site_builder::assemble::{entry_of, find_note, key_of, PLACEHOLDER, PREAMBLE, SEPARATOR};
use site_builder::{
    concat_source_note, extract_link, format_metadata, Note, NoteMetadata, ZettelType,
};

fn note(name: &str, note_type: ZettelType, body: &str) -> Note {
    Note {
        name: name.to_string(),
        meta: NoteMetadata {
            source: None,
            scope: String::from("public"),
            note_type,
            created: String::from("2024-01-01T00:00"),
            modified: String::from("2024-01-02T00:00"),
        },
        body: body.to_string(),
    }
}

fn entry(note: &Note) -> String {
    format!("{}\n\n{}", format_metadata(note), note.body)
}

#[test]
fn references_keep_their_order() {
    let notes = vec![
        note("a", ZettelType::Main, "body of a"),
        note("b", ZettelType::Main, "body of b"),
        note("list", ZettelType::Source, "- [b](/b)\n- [a](/a)"),
    ];
    let assembled = concat_source_note(&notes[2], &notes);
    assert_eq!(
        assembled.note.body,
        format!("{}{}{}{}", PREAMBLE, entry(&notes[1]), SEPARATOR, entry(&notes[0]))
    );
    let b = assembled.note.body.find("body of b").unwrap();
    let a = assembled.note.body.find("body of a").unwrap();
    assert!(b < a);
    assert!(assembled.missing.is_empty());
}

#[test]
fn missing_reference_gives_the_placeholder() {
    let notes = vec![
        note("a", ZettelType::Main, "body of a"),
        note("list", ZettelType::Source, "- [a](/a)\n- [gone](/gone)\n- [a again](/a)"),
    ];
    let assembled = concat_source_note(&notes[1], &notes);
    assert_eq!(
        assembled.note.body,
        format!(
            "{}{}{}{}{}{}",
            PREAMBLE,
            entry(&notes[0]),
            SEPARATOR,
            "*not created yet*",
            SEPARATOR,
            entry(&notes[0])
        )
    );
    assert_eq!(assembled.missing, vec![String::from("gone")]);
}

#[test]
fn one_reference_has_no_separator_after_it() {
    let notes = vec![
        note("main-a", ZettelType::Main, "Alpha."),
        note("src-1", ZettelType::Source, "- [main-a](/main-a)"),
    ];
    let assembled = concat_source_note(&notes[1], &notes);
    assert_eq!(
        assembled.note.body,
        "import NoteMeta from \"../components/NoteMeta.astro\"\n\n<NoteMeta name=\"main-a\" source=\"\" scope=\"public\" type=\"main\" created=\"2024-01-01T00:00Z\" modified=\"2024-01-02T00:00Z\" />\n\nAlpha."
    );
    assert!(!assembled.note.body.contains("---"));
}

#[test]
fn name_and_metadata_are_those_of_the_source_note() {
    let mut source = note("src", ZettelType::Source, "- [x](/x)");
    source.meta.source = Some(String::from("https://example.com/book"));
    source.meta.scope = String::from("private");
    let assembled = concat_source_note(&source, &[]);
    assert_eq!(assembled.note.name, "src");
    assert_eq!(assembled.note.meta.source, Some(String::from("https://example.com/book")));
    assert_eq!(assembled.note.meta.scope, "private");
    assert_eq!(assembled.note.meta.note_type, ZettelType::Source);
    assert_eq!(assembled.note.meta.created, "2024-01-01T00:00");
    assert_eq!(assembled.note.meta.modified, "2024-01-02T00:00");
    assert_eq!(assembled.note.body, format!("{}{}", PREAMBLE, PLACEHOLDER));
    assert_eq!(assembled.missing, vec![String::from("x")]);
}

#[test]
fn lines_that_are_no_references_are_left_out() {
    let notes = vec![
        note("a", ZettelType::Main, "A"),
        note("list", ZettelType::Source, "# Reading\n\n- [a](/a)\nsome prose [a](/a)\n -[a](/a)\n-[a](/a)"),
    ];
    let assembled = concat_source_note(&notes[1], &notes);
    assert_eq!(assembled.note.body, format!("{}{}", PREAMBLE, entry(&notes[0])));
}

#[test]
fn body_without_references_gives_only_the_preamble() {
    let source = note("src", ZettelType::Source, "nothing listed");
    let assembled = concat_source_note(&source, &[]);
    assert_eq!(assembled.note.body, PREAMBLE);
    let empty = note("src", ZettelType::Source, "");
    assert_eq!(concat_source_note(&empty, &[]).note.body, PREAMBLE);
}

#[test]
fn reference_without_hyperlink_gives_the_placeholder() {
    let notes = vec![note("a", ZettelType::Main, "A")];
    let source = note("src", ZettelType::Source, "- plain item\n- [a](/a)");
    let assembled = concat_source_note(&source, &notes);
    assert_eq!(
        assembled.note.body,
        format!("{}{}{}{}", PREAMBLE, PLACEHOLDER, SEPARATOR, entry(&notes[0]))
    );
    assert_eq!(assembled.missing, vec![String::from("- plain item")]);
}

#[test]
fn first_note_of_a_name_is_taken() {
    let notes = vec![note("a", ZettelType::Main, "first"), note("a", ZettelType::Main, "second")];
    let source = note("src", ZettelType::Source, "- [a](/a)");
    let assembled = concat_source_note(&source, &notes);
    assert!(assembled.note.body.ends_with("\n\nfirst"));
    assert_eq!(find_note(&notes, "a"), Some(0));
    assert_eq!(find_note(&notes, "b"), None);
    assert_eq!(find_note(&[], "a"), None);
}

#[test]
fn external_destination_is_looked_up_as_it_stands() {
    let notes = vec![note("https://example.com", ZettelType::Main, "odd")];
    let source = note("src", ZettelType::Source, "- [site](https://example.com)");
    let assembled = concat_source_note(&source, &notes);
    assert_eq!(assembled.note.body, format!("{}{}", PREAMBLE, entry(&notes[0])));
}

#[test]
fn link_is_what_stands_between_the_brackets() {
    assert_eq!(extract_link("- [b](/b)"), Some("/b"));
    assert_eq!(extract_link("- [b](/b) and [c](/c)"), Some("/b"));
    assert_eq!(extract_link("- [b]()"), Some(""));
    assert_eq!(extract_link("- [b](/a (1))"), Some("/a (1"));
    assert_eq!(extract_link("- [ü](/ü)"), Some("/ü"));
    assert_eq!(extract_link("- no link"), None);
    assert_eq!(extract_link("- [b](/b"), None);
    assert_eq!(extract_link(") then ]("), None);
    assert_eq!(extract_link(""), None);
}

#[test]
fn key_drops_one_leading_slash() {
    assert_eq!(key_of("/b"), "b");
    assert_eq!(key_of("b"), "b");
    assert_eq!(key_of("//b"), "/b");
    assert_eq!(key_of("/"), "");
    assert_eq!(key_of(""), "");
    assert_eq!(key_of("https://example.com"), "https://example.com");
}

#[test]
fn entry_is_tag_blank_line_body() {
    let a = note("a", ZettelType::Main, "A");
    assert_eq!(
        entry_of(&a),
        "<NoteMeta name=\"a\" source=\"\" scope=\"public\" type=\"main\" created=\"2024-01-01T00:00Z\" modified=\"2024-01-02T00:00Z\" />\n\nA"
    );
}

#[test]
fn the_fixed_texts() {
    assert_eq!(PREAMBLE, "import NoteMeta from \"../components/NoteMeta.astro\"\n\n");
    assert_eq!(SEPARATOR, "\n\n---\n\n");
    assert_eq!(PLACEHOLDER, "*not created yet*");
}

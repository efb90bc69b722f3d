use site_builder::pipeline::{document_file_name, in_scopes, MAIN_LAYOUT, OUTPUT_EXTENSION};
use site_builder::{
    body_embed_targets, concat_source_note, read_note, render_document, rewrite_body, Asset,
    Diagnostic, EmbedError, Note, ZettelType,
};

const DOT: &str = "<svg xmlns=\"http://www.w3.org/2000/svg\"><circle fill=\"#099268\" stroke=\"#010203\"/></svg>";

fn dot() -> Vec<Asset> {
    vec![Asset { name: String::from("dot"), data: DOT.as_bytes().to_vec() }]
}

fn parsed(path: &str, kind: &str, body: &str) -> Note {
    let text = format!(
        "---\nscope: public\ntype: {}\ncreated: 2024-01-01T00:00\nmodified: 2024-01-02T00:00\n---\n{}",
        kind, body
    );
    read_note(path, &text).unwrap()
}

#[test]
fn wikilink_inside_a_code_span_is_unchanged() {
    let body = "see `[[x]]` here";
    assert_eq!(rewrite_body(body, &vec![]).unwrap().body, body);
}

#[test]
fn links_outside_code_are_rewritten() {
    assert_eq!(
        rewrite_body("[[a]] `[[b]]` [[c|d]] `![[e]]` [[f]]", &vec![]).unwrap().body,
        "[a](/a) `[[b]]` [d](/c) `![[e]]` [f](/f)"
    );
}

#[test]
fn embeds_come_before_links() {
    let rewritten = rewrite_body("![[dot]] and [[a]]", &dot()).unwrap();
    assert_eq!(
        rewritten.body,
        "<svg><circle fill=\"var(--color-teal)\" stroke=\"#010203\"></circle></svg> and [a](/a)"
    );
    assert_eq!(rewritten.diagnostics, vec![Diagnostic::UnknownColor(String::from("#010203"))]);
}

#[test]
fn embed_inside_code_asks_for_no_asset() {
    assert_eq!(rewrite_body("`![[gone]]`", &vec![]).unwrap().body, "`![[gone]]`");
    assert!(body_embed_targets("`![[gone]]`").is_empty());
}

#[test]
fn missing_asset_stops_the_rewriting() {
    assert_eq!(
        rewrite_body("[[a]] ![[gone]] `x` ![[dot]]", &dot()),
        Err(EmbedError::MissingAsset(String::from("gone")))
    );
}

#[test]
fn missing_asset_fails_and_missing_note_does_not() {
    assert!(rewrite_body("![[gone]]", &vec![]).is_err());
    let list = parsed("list.md", "source", "- [[gone]]");
    let body = rewrite_body(&list.body, &vec![]).unwrap().body;
    assert_eq!(body, "- [gone](/gone)");
    let list = Note { body, ..list };
    let assembled = concat_source_note(&list, &[]);
    assert!(assembled.note.body.ends_with("*not created yet*"));
    assert_eq!(assembled.missing, vec![String::from("gone")]);
}

#[test]
fn targets_of_a_body_skip_code() {
    assert_eq!(
        body_embed_targets("![[a]] `![[b]]` ![[c|label]] ``![[d]]"),
        vec![String::from("a"), String::from("c"), String::from("d")]
    );
}

#[test]
fn unbalanced_delimiter_puts_the_rest_inside_code() {
    assert_eq!(rewrite_body("[[a]] `[[b]] [[c]]", &vec![]).unwrap().body, "[a](/a) `[[b]] [[c]]");
}

#[test]
fn body_without_anything_to_rewrite_is_unchanged() {
    let body = "plain\ntext with `code` and ``` fences ```\n";
    assert_eq!(rewrite_body(body, &vec![]).unwrap().body, body);
    assert_eq!(rewrite_body("", &vec![]).unwrap().body, "");
}

#[test]
fn a_vault_of_two_notes_gives_two_documents() {
    let main = parsed("vault/main-a.md", "main", "Alpha, see [[src-1|the list]].\n");
    let list = parsed("vault/src-1.md", "source", "- [[main-a]]\n");
    let mut notes = Vec::new();
    for note in [main, list] {
        let body = rewrite_body(&note.body, &vec![]).unwrap().body;
        notes.push(Note { body, ..note });
    }
    assert_eq!(notes[0].body, "Alpha, see [the list](/src-1).");
    assert_eq!(notes[1].body, "- [main-a](/main-a)");
    let assembled = concat_source_note(&notes[1], &notes);
    assert!(assembled.missing.is_empty());
    let tag = "<NoteMeta name=\"main-a\" source=\"\" scope=\"public\" type=\"main\" created=\"2024-01-01T00:00Z\" modified=\"2024-01-02T00:00Z\" />";
    assert_eq!(
        assembled.note.body,
        format!(
            "import NoteMeta from \"../components/NoteMeta.astro\"\n\n{}\n\nAlpha, see [the list](/src-1).",
            tag
        )
    );
    assert!(!assembled.note.body.contains("\n\n---\n\n"));
    let documents = vec![
        (document_file_name(&notes[0]), render_document(&notes[0], MAIN_LAYOUT)),
        (document_file_name(&assembled.note), render_document(&assembled.note, MAIN_LAYOUT)),
    ];
    assert_eq!(documents.len(), 2);
    assert_eq!(documents[0].0, "main-a.mdx");
    assert_eq!(documents[1].0, "src-1.mdx");
    assert_eq!(
        documents[0].1,
        "---\nlayout: ../layouts/MainLayout.astro\ntitle: \"main-a\"\nsource: \"\"\nscope: \"public\"\ntype: \"main\"\ncreated: \"2024-01-01T00:00Z\"\nmodified: \"2024-01-02T00:00Z\"\n---\n\nAlpha, see [the list](/src-1)."
    );
    assert_eq!(
        documents[1].1,
        format!(
            "---\nlayout: ../layouts/MainLayout.astro\ntitle: \"src-1\"\nsource: \"\"\nscope: \"public\"\ntype: \"source\"\ncreated: \"2024-01-01T00:00Z\"\nmodified: \"2024-01-02T00:00Z\"\n---\n\nimport NoteMeta from \"../components/NoteMeta.astro\"\n\n{}\n\nAlpha, see [the list](/src-1).",
            tag
        )
    );
    assert_eq!(assembled.note.meta.note_type, ZettelType::Source);
}

#[test]
fn scope_must_be_among_the_included() {
    let note = parsed("a.md", "main", "x");
    assert!(in_scopes(&note, &vec![String::from("private"), String::from("public")]));
    assert!(!in_scopes(&note, &vec![String::from("private"), String::from("Public")]));
    assert!(!in_scopes(&note, &vec![]));
}

#[test]
fn layout_and_extension() {
    assert_eq!(MAIN_LAYOUT, "../layouts/MainLayout.astro");
    assert_eq!(OUTPUT_EXTENSION, ".mdx");
}

use site_builder::links::{leads_outside, render_link, render_wikilink, weave_links};
use site_builder::{format_links, rewrite_links};

#[test]
fn internal_link_without_label() {
    assert_eq!(format_links("[[a]]"), "[a](/a)");
}

#[test]
fn internal_link_with_label() {
    assert_eq!(format_links("[[a|b]]"), "[b](/a)");
}

#[test]
fn external_targets_are_left_unprefixed() {
    assert_eq!(
        format_links("[[https://example.com|site]]"),
        "[site](https://example.com)"
    );
    assert_eq!(format_links("[[http://example.com]]"), "[http://example.com](http://example.com)");
    assert_eq!(
        format_links("[[mailto:me@example.com|write]]"),
        "[write](mailto:me@example.com)"
    );
}

#[test]
fn text_around_links_is_kept() {
    assert_eq!(format_links("x [[a]] y [[b|c]] z"), "x [a](/a) y [c](/b) z");
    assert_eq!(format_links("[[a]][[b]]"), "[a](/a)[b](/b)");
}

#[test]
fn text_without_links_is_unchanged() {
    assert_eq!(format_links("no links here"), "no links here");
    assert_eq!(format_links(""), "");
    assert_eq!(format_links("[[]]"), "[[]]");
    assert_eq!(format_links("[single]"), "[single]");
}

#[test]
fn target_ends_at_the_first_bar() {
    assert_eq!(format_links("[[a|b|c]]"), "[b|c](/a)");
}

#[test]
fn links_do_not_span_lines() {
    assert_eq!(format_links("[[a\nb]]"), "[[a\nb]]");
}

#[test]
fn target_with_spaces_and_unicode() {
    assert_eq!(format_links("[[my note|Übersicht]]"), "[Übersicht](/my note)");
}

#[test]
fn render_link_by_hand() {
    assert_eq!(render_link("a", None), "[a](/a)");
    assert_eq!(render_link("a", Some("b")), "[b](/a)");
    assert_eq!(render_link("https://x.y", None), "[https://x.y](https://x.y)");
    assert_eq!(render_link("mailto:x", Some("")), "[](mailto:x)");
    assert_eq!(render_link("", None), "[](/)");
}

#[test]
fn scheme_must_stand_at_the_start() {
    assert!(leads_outside("https://a"));
    assert!(leads_outside("http://a"));
    assert!(leads_outside("mailto:a"));
    assert!(!leads_outside("ftp://a"));
    assert!(!leads_outside("see https://a"));
    assert!(!leads_outside("http:/a"));
}

#[test]
fn wikilink_groups_by_hand() {
    let whole = Some(String::from("[[a|b]]"));
    assert_eq!(
        render_wikilink(&vec![whole.clone(), Some(String::from("a")), Some(String::from("|b"))]),
        "[b](/a)"
    );
    assert_eq!(render_wikilink(&vec![whole.clone(), Some(String::from("a")), None]), "[a](/a)");
    assert_eq!(render_wikilink(&vec![whole.clone(), None, None]), "[[a|b]]");
    assert_eq!(render_wikilink(&vec![whole]), "[[a|b]]");
    assert_eq!(render_wikilink(&vec![]), "");
    assert_eq!(
        render_wikilink(&vec![None, Some(String::from("a")), Some(String::new())]),
        "[](/a)"
    );
}

#[test]
fn weaving_links_by_hand() {
    let between = vec![String::from("x "), String::from(" y")];
    let found = vec![vec![Some(String::from("[[a]]")), Some(String::from("a")), None]];
    assert_eq!(weave_links(&between, &found), "x [a](/a) y");
}

#[test]
fn wikilink_in_a_code_span_is_left_alone() {
    assert_eq!(format_links("`[[x]]`"), "`[[x]]`");
    assert_eq!(format_links("see `[[x]]` here"), "see `[[x]]` here");
}

#[test]
fn links_around_code_spans_are_rewritten() {
    assert_eq!(
        format_links("[[a]] `[[b]]` [[c|d]] `[[e|f]]` [[g]]"),
        "[a](/a) `[[b]]` [d](/c) `[[e|f]]` [g](/g)"
    );
    assert_eq!(format_links("``[[a]]``"), "``[a](/a)``");
}

#[test]
fn unclosed_code_span_reaches_to_the_end() {
    assert_eq!(format_links("[[a]] `[[b]] [[c]]"), "[a](/a) `[[b]] [[c]]");
    assert_eq!(format_links("`"), "`");
}

#[test]
fn wikilink_cut_by_a_delimiter_is_no_link() {
    assert_eq!(format_links("[[a`b]]"), "[[a`b]]");
}

#[test]
fn pieces_inside_code_come_back_as_they_were() {
    let body = "one [[a]] `two [[b]]` three [[c|d]] `four` five ` six [[e]]";
    let before: Vec<&str> = body.split('`').collect();
    let rewritten = format_links(body);
    let after: Vec<&str> = rewritten.split('`').collect();
    assert_eq!(after.len(), before.len());
    assert_eq!(after[0], "one [a](/a) ");
    assert_eq!(after[1], before[1]);
    assert_eq!(after[2], " three [d](/c) ");
    assert_eq!(after[3], before[3]);
    assert_eq!(after[4], " five ");
    assert_eq!(after[5], before[5]);
}

#[test]
fn a_piece_free_of_code_is_rewritten_throughout() {
    assert_eq!(rewrite_links("[[a]] and [[b|c]]"), "[a](/a) and [c](/b)");
    assert_eq!(rewrite_links("no links"), "no links");
    assert_eq!(rewrite_links(""), "");
}

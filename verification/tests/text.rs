use site_builder::text::{
    chars_of, find_char_from, find_last_char, find_text, join_with, same_text, split_char,
    starts_with, weave,
};

fn strings(items: &[&str]) -> Vec<String> {
    items.iter().map(|s| s.to_string()).collect()
}

#[test]
fn split_cuts_at_every_separator() {
    assert_eq!(split_char("a`b`c", '`'), strings(&["a", "b", "c"]));
    assert_eq!(split_char("`a``", '`'), strings(&["", "a", "", ""]));
}

#[test]
fn split_of_empty_text_is_one_empty_piece() {
    assert_eq!(split_char("", '\n'), strings(&[""]));
    assert_eq!(split_char("no separator", '\n'), strings(&["no separator"]));
}

#[test]
fn split_counts_characters_not_bytes() {
    assert_eq!(split_char("é`ü", '`'), strings(&["é", "ü"]));
}

#[test]
fn join_puts_the_separator_between() {
    assert_eq!(join_with(&strings(&["a", "b", "c"]), ", "), "a, b, c");
    assert_eq!(join_with(&strings(&["only"]), ", "), "only");
    assert_eq!(join_with(&strings(&[]), ", "), "");
    assert_eq!(join_with(&strings(&["", ""]), "-"), "-");
}

#[test]
fn join_undoes_split() {
    let text = "one `two` three ``` four";
    assert_eq!(join_with(&split_char(text, '`'), "`"), text);
}

#[test]
fn weave_takes_gaps_and_fills_in_turn() {
    assert_eq!(weave(&strings(&["a", "b", "c"]), &strings(&["1", "2"])), "a1b2c");
    assert_eq!(weave(&strings(&["a"]), &strings(&[])), "a");
    assert_eq!(weave(&strings(&[]), &strings(&["1", "2"])), "12");
    assert_eq!(weave(&strings(&["a", "b", "c"]), &strings(&["1"])), "a1bc");
}

#[test]
fn searching_finds_the_leftmost_and_rightmost() {
    let chars = chars_of("a.b.c");
    assert_eq!(find_char_from(&chars, 0, '.'), Some(1));
    assert_eq!(find_char_from(&chars, 2, '.'), Some(3));
    assert_eq!(find_char_from(&chars, 4, '.'), None);
    assert_eq!(find_char_from(&chars, 5, '.'), None);
    assert_eq!(find_char_from(&chars, 6, '.'), None);
    assert_eq!(find_last_char(&chars, '.'), Some(3));
    assert_eq!(find_last_char(&chars, '/'), None);
}

#[test]
fn find_text_gives_the_first_occurrence() {
    assert_eq!(find_text(&chars_of("[a](b) [c](d)"), &chars_of("](")), Some(2));
    assert_eq!(find_text(&chars_of("abc"), &chars_of("](")), None);
    assert_eq!(find_text(&chars_of("]"), &chars_of("](")), None);
    assert_eq!(find_text(&chars_of("abc"), &chars_of("")), Some(0));
    assert_eq!(find_text(&chars_of("aab"), &chars_of("ab")), Some(1));
}

#[test]
fn prefix_and_equality() {
    assert!(starts_with("- item", "- "));
    assert!(!starts_with("-item", "- "));
    assert!(!starts_with("-", "- "));
    assert!(starts_with("anything", ""));
    assert!(same_text("abc", "abc"));
    assert!(!same_text("abc", "abd"));
    assert!(!same_text("abc", "ab"));
}

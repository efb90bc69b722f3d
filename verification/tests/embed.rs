use site_builder::embed::{asset_file_name, find_asset, targets_of, weave_embeds};
use site_builder::{embed_svgs, embed_targets, Asset, Diagnostic, EmbedError};

const SQUARE: &str = "<svg xmlns=\"http://www.w3.org/2000/svg\"><rect fill=\"#e03131\"/></svg>";
const CIRCLE: &str = "<svg xmlns=\"http://www.w3.org/2000/svg\"><circle stroke=\"#abcdef\"/></svg>";

fn asset(name: &str, data: &str) -> Asset {
    Asset { name: name.to_string(), data: data.as_bytes().to_vec() }
}

fn assets() -> Vec<Asset> {
    vec![asset("square", SQUARE), asset("circle", CIRCLE)]
}

#[test]
fn embed_is_replaced_by_the_asset() {
    let embedded = embed_svgs("before ![[square]] after", &assets()).unwrap();
    assert_eq!(
        embedded.body,
        "before <svg><rect fill=\"var(--color-red)\"></rect></svg> after"
    );
    assert!(embedded.diagnostics.is_empty());
}

#[test]
fn label_has_no_effect() {
    let with = embed_svgs("![[square|a red square]]", &assets()).unwrap();
    let without = embed_svgs("![[square]]", &assets()).unwrap();
    assert_eq!(with.body, without.body);
    assert_eq!(with.body, "<svg><rect fill=\"var(--color-red)\"></rect></svg>");
}

#[test]
fn unknown_colors_are_reported_in_order() {
    let embedded = embed_svgs("![[circle]]![[square]]![[circle]]", &assets()).unwrap();
    assert_eq!(
        embedded.body,
        "<svg><circle stroke=\"#abcdef\"></circle></svg><svg><rect fill=\"var(--color-red)\"></rect></svg><svg><circle stroke=\"#abcdef\"></circle></svg>"
    );
    assert_eq!(
        embedded.diagnostics,
        vec![
            Diagnostic::UnknownColor(String::from("#abcdef")),
            Diagnostic::UnknownColor(String::from("#abcdef")),
        ]
    );
}

#[test]
fn missing_asset_is_an_error() {
    assert_eq!(
        embed_svgs("![[triangle]]", &assets()),
        Err(EmbedError::MissingAsset(String::from("triangle")))
    );
    assert_eq!(
        embed_svgs("![[square]] ![[b]] ![[a]]", &assets()),
        Err(EmbedError::MissingAsset(String::from("b")))
    );
    assert_eq!(
        embed_svgs("![[square]]", &vec![]),
        Err(EmbedError::MissingAsset(String::from("square")))
    );
}

#[test]
fn text_without_embeds_is_unchanged() {
    let embedded = embed_svgs("a [[link]] and ![image](x.png)", &vec![]).unwrap();
    assert_eq!(embedded.body, "a [[link]] and ![image](x.png)");
    assert!(embedded.diagnostics.is_empty());
    assert_eq!(embed_svgs("", &vec![]).unwrap().body, "");
}

#[test]
fn targets_are_listed_in_order() {
    assert_eq!(
        embed_targets("![[a]] text ![[b|alt]] [[c]] ![[a]]"),
        vec![String::from("a"), String::from("b"), String::from("a")]
    );
    assert!(embed_targets("no embeds, only [[links]]").is_empty());
}

#[test]
fn first_asset_of_a_name_is_taken() {
    let twice = vec![asset("pic", SQUARE), asset("pic", CIRCLE)];
    assert_eq!(find_asset(&twice, "pic"), Some(0));
    assert_eq!(find_asset(&twice, "other"), None);
    assert_eq!(
        embed_svgs("![[pic]]", &twice).unwrap().body,
        "<svg><rect fill=\"var(--color-red)\"></rect></svg>"
    );
}

#[test]
fn asset_file_is_target_dot_svg() {
    assert_eq!(asset_file_name("drawing"), "drawing.svg");
    assert_eq!(asset_file_name("a.b"), "a.b.svg");
    assert_eq!(asset_file_name(""), ".svg");
}

#[test]
fn matches_by_hand() {
    let found = vec![
        vec![Some(String::from("![[square]]")), Some(String::from("square")), None],
        vec![Some(String::from("![[odd]]")), None, None],
    ];
    assert_eq!(targets_of(&found), vec![String::from("square")]);
    let between = vec![String::from("a"), String::from("b"), String::from("c")];
    let embedded = weave_embeds(&between, &found, &assets()).unwrap();
    assert_eq!(
        embedded.body,
        "a<svg><rect fill=\"var(--color-red)\"></rect></svg>b![[odd]]c"
    );
    assert_eq!(
        weave_embeds(&between, &found, &vec![]),
        Err(EmbedError::MissingAsset(String::from("square")))
    );
}

#[test]
fn malformed_asset_is_embedded_as_far_as_it_goes() {
    let broken = vec![asset("broken", "<svg xmlns=\"http://www.w3.org/2000/svg\"><g>")];
    let embedded = embed_svgs("a ![[broken]] b", &broken).unwrap();
    assert_eq!(embedded.body, "a <svg><g> b");
    assert_eq!(embedded.diagnostics.len(), 1);
    assert!(matches!(&embedded.diagnostics[0], Diagnostic::MalformedAsset(_)));
}

use site_builder::svg::{
    has_color_shape, process_svg, render_events, strip_namespace, Attribute, Diagnostic, SvgEvent,
};

fn unknown(color: &str) -> Diagnostic {
    Diagnostic::UnknownColor(color.to_string())
}

fn attribute(name: &str, value: &str) -> Attribute {
    Attribute { name: name.to_string(), value: value.to_string() }
}

fn start(name: &str, attributes: Vec<Attribute>) -> SvgEvent {
    SvgEvent::StartElement { name: name.to_string(), attributes }
}

fn end(name: &str) -> SvgEvent {
    SvgEvent::EndElement { name: name.to_string() }
}

#[test]
fn asset_is_inlined_and_themed() {
    let svg = "<svg xmlns=\"http://www.w3.org/2000/svg\" width=\"10\"><style>.a{fill:red}</style><rect fill=\"#ffffff\" stroke=\"#123456\" filter=\"url(#f)\"/><text>hi</text></svg>";
    let rendered = process_svg(svg.as_bytes());
    assert_eq!(
        rendered.markup,
        "<svg width=\"10\"><style></style><rect fill=\"var(--color-base)\" stroke=\"#123456\"></rect><text>hi</text></svg>"
    );
    assert_eq!(rendered.diagnostics, vec![unknown("#123456")]);
}

#[test]
fn asset_with_declaration_and_comment() {
    let svg = "<?xml version=\"1.0\" encoding=\"UTF-8\"?>\n<!-- drawn by hand -->\n<svg xmlns=\"http://www.w3.org/2000/svg\"><g stroke=\"#1e1e1e\">a &amp; b</g></svg>\n";
    let rendered = process_svg(svg.as_bytes());
    assert_eq!(rendered.markup, "<svg><g stroke=\"var(--color-text)\">a & b</g></svg>");
    assert!(rendered.diagnostics.is_empty());
}

#[test]
fn every_known_shade_is_themed_in_an_asset() {
    let svg = "<svg xmlns=\"http://www.w3.org/2000/svg\"><path fill=\"#a5d8ff\" stroke=\"#1971c2\"/><path fill=\"#ffc9c9\" stroke=\"#e03131\"/></svg>";
    let rendered = process_svg(svg.as_bytes());
    assert_eq!(
        rendered.markup,
        "<svg><path fill=\"var(--color-blue)\" stroke=\"var(--color-blue)\"></path><path fill=\"var(--color-red)\" stroke=\"var(--color-red)\"></path></svg>"
    );
    assert!(rendered.diagnostics.is_empty());
}

#[test]
fn empty_input_gives_empty_markup_and_is_reported() {
    let rendered = process_svg(b"");
    assert_eq!(rendered.markup, "");
    assert_eq!(rendered.diagnostics.len(), 1);
    assert!(matches!(&rendered.diagnostics[0], Diagnostic::MalformedAsset(reason) if !reason.is_empty()));
}

#[test]
fn malformed_asset_is_cut_off_and_reported() {
    let svg = "<svg xmlns=\"http://www.w3.org/2000/svg\"><rect fill=\"#abcdef\"><text>kept</text></svg><g/>";
    let rendered = process_svg(svg.as_bytes());
    assert_eq!(rendered.markup, "<svg><rect fill=\"#abcdef\"><text>kept</text>");
    assert_eq!(rendered.diagnostics.len(), 2);
    assert_eq!(rendered.diagnostics[0], unknown("#abcdef"));
    assert!(matches!(&rendered.diagnostics[1], Diagnostic::MalformedAsset(reason) if !reason.is_empty()));
}

#[test]
fn well_formed_asset_reports_no_error() {
    let svg = "<svg xmlns=\"http://www.w3.org/2000/svg\"><g/></svg>";
    let rendered = process_svg(svg.as_bytes());
    assert_eq!(rendered.markup, "<svg><g></g></svg>");
    assert!(rendered.diagnostics.is_empty());
}

#[test]
fn text_after_a_style_element_is_written_again() {
    let svg = "<svg xmlns=\"http://www.w3.org/2000/svg\"><style>a</style><text>b</text><style>c</style><text>d</text></svg>";
    assert_eq!(
        process_svg(svg.as_bytes()).markup,
        "<svg><style></style><text>b</text><style></style><text>d</text></svg>"
    );
}

#[test]
fn prefixed_elements_keep_their_prefix() {
    let svg = "<s:svg xmlns:s=\"http://www.w3.org/2000/svg\"><s:rect/></s:svg>";
    assert_eq!(process_svg(svg.as_bytes()).markup, "<s:svg><s:rect></s:rect></s:svg>");
}

#[test]
fn other_namespaces_stay() {
    let svg = "<svg xmlns=\"http://www.w3.org/2000/svg\" xmlns:x=\"urn:x\"><x:note x:id=\"1\"/></svg>";
    assert_eq!(
        process_svg(svg.as_bytes()).markup,
        "<svg><{urn:x}x:note {urn:x}x:id=\"1\"></{urn:x}x:note></svg>"
    );
}

#[test]
fn events_by_hand() {
    let events = vec![
        SvgEvent::Other,
        start(
            "{http://www.w3.org/2000/svg}svg",
            vec![attribute("fill", "#2f9e44"), attribute("filter", "x"), attribute("id", "#abc")],
        ),
        SvgEvent::Characters(String::from("one")),
        start("style", vec![]),
        SvgEvent::Characters(String::from("two")),
        start("b", vec![attribute("stroke", "#zzzzzz")]),
        SvgEvent::Characters(String::from("three")),
        end("b"),
        end("{http://www.w3.org/2000/svg}style"),
        SvgEvent::Characters(String::from("four")),
        end("svg"),
    ];
    let rendered = render_events(&events);
    assert_eq!(
        rendered.markup,
        "<svg fill=\"var(--color-green)\" id=\"#abc\">one<style><b stroke=\"#zzzzzz\"></b></style>four</svg>"
    );
    assert_eq!(rendered.diagnostics, vec![unknown("#zzzzzz")]);
}

#[test]
fn reader_error_by_hand() {
    let events = vec![
        start("svg", vec![attribute("fill", "#000001")]),
        SvgEvent::Characters(String::from("text")),
        SvgEvent::Error(String::from("1:20 Unexpected end of stream")),
    ];
    let rendered = render_events(&events);
    assert_eq!(rendered.markup, "<svg fill=\"#000001\">text");
    assert_eq!(
        rendered.diagnostics,
        vec![
            unknown("#000001"),
            Diagnostic::MalformedAsset(String::from("1:20 Unexpected end of stream")),
        ]
    );
}

#[test]
fn no_events_no_markup() {
    let rendered = render_events(&vec![]);
    assert_eq!(rendered.markup, "");
    assert!(rendered.diagnostics.is_empty());
}

#[test]
fn a_dropped_attribute_is_not_reported() {
    let rendered = render_events(&vec![start("rect", vec![attribute("filter", "#123456")])]);
    assert_eq!(rendered.markup, "<rect>");
    assert!(rendered.diagnostics.is_empty());
}

#[test]
fn namespaced_filter_attribute_is_dropped_too() {
    let rendered = render_events(&vec![start(
        "rect",
        vec![attribute("{http://www.w3.org/2000/svg}filter", "x"), attribute("a", "b")],
    )]);
    assert_eq!(rendered.markup, "<rect a=\"b\">");
}

#[test]
fn namespace_is_stripped_only_at_the_start() {
    assert_eq!(strip_namespace("{http://www.w3.org/2000/svg}rect"), "rect");
    assert_eq!(strip_namespace("rect"), "rect");
    assert_eq!(strip_namespace("{http://www.w3.org/2000/svg}"), "");
    assert_eq!(
        strip_namespace("x{http://www.w3.org/2000/svg}rect"),
        "x{http://www.w3.org/2000/svg}rect"
    );
    assert_eq!(strip_namespace("{urn:other}rect"), "{urn:other}rect");
}

#[test]
fn color_shape_is_hash_and_six_characters() {
    assert!(has_color_shape("#ffffff"));
    assert!(has_color_shape("#zzzzzz"));
    assert!(!has_color_shape("#fffff"));
    assert!(!has_color_shape("#fffffff"));
    assert!(!has_color_shape("fffffff"));
    assert!(!has_color_shape(""));
    assert!(has_color_shape("#äöüäöü"));
}

//! Inlining of vector graphics: an asset is read as a stream of XML events
//! and written back as flat markup, without the SVG namespace, without the
//! content of `style` elements, without `filter` attributes, and with the
//! palette's literal colors replaced by theme tokens.

use crate::colors::{color_family, lookup_color, themed, token_text};
use crate::text::starts_with;
use vstd::prelude::*;
use vstd::string::*;
use xml::reader::{EventReader, XmlEvent};

verus! {

/// One attribute of an element. The name is qualified: a namespace, where
/// the attribute has one, stands in braces before the rest.
#[derive(Debug, PartialEq, Eq)]
pub struct Attribute {
    pub name: String,
    pub value: String,
}

/// What the renderer reads of one XML event. Element names are qualified as
/// attribute names are.
#[derive(Debug, PartialEq, Eq)]
pub enum SvgEvent {
    StartElement { name: String, attributes: Vec<Attribute> },
    Characters(String),
    EndElement { name: String },
    /// The reader could not go on; the text says why and where. No event
    /// follows this one.
    Error(String),
    /// Any other event; it leaves no trace in the markup.
    Other,
}

/// Something met while rendering that the caller is to be told of. None of
/// them stops the rendering.
#[derive(Debug, PartialEq, Eq)]
pub enum Diagnostic {
    /// An attribute's value has the shape of a literal color and is outside
    /// the palette; it was written as it stands.
    UnknownColor(String),
    /// The asset is not well-formed; its markup ends where the reader
    /// stopped.
    MalformedAsset(String),
}

/// The inlined markup of one asset, and what was met on the way, in order.
#[derive(Debug, PartialEq, Eq)]
pub struct SvgMarkup {
    pub markup: String,
    pub diagnostics: Vec<Diagnostic>,
}

/// The mathematical content of an [`Attribute`].
pub struct AttributeView {
    pub name: Seq<char>,
    pub value: Seq<char>,
}

/// The mathematical content of an [`SvgEvent`].
pub enum SvgEventView {
    StartElement { name: Seq<char>, attributes: Seq<AttributeView> },
    Characters(Seq<char>),
    EndElement { name: Seq<char> },
    Error(Seq<char>),
    Other,
}

/// The mathematical content of a [`Diagnostic`].
pub enum DiagnosticView {
    UnknownColor(Seq<char>),
    MalformedAsset(Seq<char>),
}

impl DeepView for Diagnostic {
    type V = DiagnosticView;

    open spec fn deep_view(&self) -> DiagnosticView {
        match self {
            Diagnostic::UnknownColor(value) => DiagnosticView::UnknownColor(value@),
            Diagnostic::MalformedAsset(reason) => DiagnosticView::MalformedAsset(reason@),
        }
    }
}

impl View for Attribute {
    type V = AttributeView;

    open spec fn view(&self) -> AttributeView {
        AttributeView { name: self.name@, value: self.value@ }
    }
}

/// The views of a list of attributes, in order.
pub open spec fn attribute_views(attributes: Seq<Attribute>) -> Seq<AttributeView> {
    Seq::new(attributes.len(), |i: int| attributes[i]@)
}

impl View for SvgEvent {
    type V = SvgEventView;

    open spec fn view(&self) -> SvgEventView {
        match self {
            SvgEvent::StartElement { name, attributes } => SvgEventView::StartElement {
                name: name@,
                attributes: attribute_views(attributes@),
            },
            SvgEvent::Characters(text) => SvgEventView::Characters(text@),
            SvgEvent::EndElement { name } => SvgEventView::EndElement { name: name@ },
            SvgEvent::Error(reason) => SvgEventView::Error(reason@),
            SvgEvent::Other => SvgEventView::Other,
        }
    }
}

/// The views of a list of events, in order.
pub open spec fn event_views(events: Seq<SvgEvent>) -> Seq<SvgEventView> {
    Seq::new(events.len(), |i: int| events[i]@)
}

/// The events that the XML reader yields for a document, from the first one
/// to the end of the document or the first error, the error included.
pub uninterp spec fn xml_events(data: Seq<u8>) -> Seq<SvgEventView>;

/// A qualified name without the SVG namespace in front of it.
pub open spec fn local_name(name: Seq<char>) -> Seq<char> {
    let namespace = "{http://www.w3.org/2000/svg}"@;
    if namespace.is_prefix_of(name) {
        name.skip(namespace.len() as int)
    } else {
        name
    }
}

/// Whether a value has the shape of a literal color: `#` and six more
/// characters.
pub open spec fn is_color_literal(value: Seq<char>) -> bool {
    value.len() == 7 && value[0] == '#'
}

/// What an attribute's value is written as.
pub open spec fn attribute_value(value: Seq<char>) -> Seq<char> {
    if is_color_literal(value) {
        themed(value)
    } else {
        value
    }
}

/// Whether an attribute is left out of the markup.
pub open spec fn is_dropped(attribute: AttributeView) -> bool {
    local_name(attribute.name) == "filter"@
}

/// What one attribute adds to its element's opening tag.
pub open spec fn attribute_markup(attribute: AttributeView) -> Seq<char> {
    if is_dropped(attribute) {
        Seq::<char>::empty()
    } else {
        " "@ + local_name(attribute.name) + "=\""@ + attribute_value(attribute.value) + "\""@
    }
}

/// What one attribute is reported for: its value, where the attribute is
/// kept and the value is a color outside the palette.
pub open spec fn attribute_diagnostics(attribute: AttributeView) -> Seq<DiagnosticView> {
    if !is_dropped(attribute) && is_color_literal(attribute.value) && color_family(
        attribute.value,
    ).is_none() {
        seq![DiagnosticView::UnknownColor(attribute.value)]
    } else {
        Seq::<DiagnosticView>::empty()
    }
}

/// What a list of attributes adds to an opening tag.
pub open spec fn attributes_markup(attributes: Seq<AttributeView>) -> Seq<char>
    decreases attributes.len(),
{
    if attributes.len() == 0 {
        Seq::<char>::empty()
    } else {
        attributes_markup(attributes.drop_last()) + attribute_markup(attributes.last())
    }
}

/// What a list of attributes is reported for, in order.
pub open spec fn attributes_diagnostics(attributes: Seq<AttributeView>) -> Seq<DiagnosticView>
    decreases attributes.len(),
{
    if attributes.len() == 0 {
        Seq::<DiagnosticView>::empty()
    } else {
        attributes_diagnostics(attributes.drop_last()) + attribute_diagnostics(attributes.last())
    }
}

/// Whether character data is being left out once `events` have been read:
/// it is between the opening of a `style` element and the next closing of
/// one.
pub open spec fn suppressed_after(events: Seq<SvgEventView>) -> bool
    decreases events.len(),
{
    if events.len() == 0 {
        false
    } else {
        match events.last() {
            SvgEventView::StartElement { name, .. } => local_name(name) == "style"@
                || suppressed_after(events.drop_last()),
            SvgEventView::EndElement { name } => local_name(name) != "style"@
                && suppressed_after(events.drop_last()),
            _ => suppressed_after(events.drop_last()),
        }
    }
}

/// What one event adds to the markup, given whether character data is being
/// left out when it arrives.
pub open spec fn event_markup(event: SvgEventView, suppressed: bool) -> Seq<char> {
    match event {
        SvgEventView::StartElement { name, attributes } => "<"@ + local_name(name)
            + attributes_markup(attributes) + ">"@,
        SvgEventView::Characters(text) => if suppressed {
            Seq::<char>::empty()
        } else {
            text
        },
        SvgEventView::EndElement { name } => "</"@ + local_name(name) + ">"@,
        SvgEventView::Error(_) => Seq::<char>::empty(),
        SvgEventView::Other => Seq::<char>::empty(),
    }
}

/// What one event is reported for: the colors outside the palette among an
/// element's attributes, or the reason why the reader stopped.
pub open spec fn event_diagnostics(event: SvgEventView) -> Seq<DiagnosticView> {
    match event {
        SvgEventView::StartElement { attributes, .. } => attributes_diagnostics(attributes),
        SvgEventView::Error(reason) => seq![DiagnosticView::MalformedAsset(reason)],
        _ => Seq::<DiagnosticView>::empty(),
    }
}

/// The markup of a stream of events.
pub open spec fn markup(events: Seq<SvgEventView>) -> Seq<char>
    decreases events.len(),
{
    if events.len() == 0 {
        Seq::<char>::empty()
    } else {
        markup(events.drop_last()) + event_markup(
            events.last(),
            suppressed_after(events.drop_last()),
        )
    }
}

/// What a stream of events is reported for, in order.
pub open spec fn diagnostics(events: Seq<SvgEventView>) -> Seq<DiagnosticView>
    decreases events.len(),
{
    if events.len() == 0 {
        Seq::<DiagnosticView>::empty()
    } else {
        diagnostics(events.drop_last()) + event_diagnostics(events.last())
    }
}

/// An attribute that is kept and whose value has the shape of a literal
/// color is written with the theme token of the color's family. Where the
/// value is outside the palette it is written as it stands, and reported.
pub proof fn lemma_color_attribute(attribute: AttributeView)
    requires
        !is_dropped(attribute),
        is_color_literal(attribute.value),
    ensures
        match color_family(attribute.value) {
            Some(token) => attribute_markup(attribute) == " "@ + local_name(attribute.name)
                + "=\""@ + token_text(token) + "\""@ && attribute_diagnostics(attribute)
                == Seq::<DiagnosticView>::empty(),
            None => attribute_markup(attribute) == " "@ + local_name(attribute.name) + "=\""@
                + attribute.value + "\""@ && attribute_diagnostics(attribute) == seq![
                DiagnosticView::UnknownColor(attribute.value),
            ],
        },
{
}

/// Reads a document with `xml::reader::EventReader` and hands out its events.
/// Trusted: the events are those of `xml_events` for these bytes. Start and
/// end of elements and character data keep their fields, names written as
/// the reader displays them; a reading error keeps its text, as the reader
/// displays it; every other event is `Other`. The reader stops after the
/// end of the document or the first error.
#[verifier::external_body]
fn read_events(data: &[u8]) -> (events: Vec<SvgEvent>)
    ensures
        event_views(events@) == xml_events(data@),
{
    EventReader::new(data).into_iter().map(|event| match event {
        Ok(XmlEvent::StartElement { name, attributes, .. }) => SvgEvent::StartElement {
            name: name.to_string(),
            attributes: attributes.into_iter().map(|a| Attribute { name: a.name.to_string(), value: a.value }).collect(),
        },
        Ok(XmlEvent::Characters(text)) => SvgEvent::Characters(text),
        Ok(XmlEvent::EndElement { name }) => SvgEvent::EndElement { name: name.to_string() },
        Err(error) => SvgEvent::Error(error.to_string()),
        _ => SvgEvent::Other,
    }).collect()
}

/// A qualified name without the SVG namespace in front of it.
pub fn strip_namespace(name: &str) -> (local: String)
    ensures
        local@ == local_name(name@),
{
    let namespace = "{http://www.w3.org/2000/svg}";
    if starts_with(name, namespace) {
        let from: usize = namespace.unicode_len();
        let to: usize = name.unicode_len();
        let local = name.substring_char(from, to).to_owned();
        proof {
            assert(name@.subrange(from as int, to as int) =~= name@.skip(from as int));
        }
        local
    } else {
        name.to_owned()
    }
}

/// Whether a value has the shape of a literal color.
pub fn has_color_shape(value: &str) -> (r: bool)
    ensures
        r == is_color_literal(value@),
{
    value.unicode_len() == 7 && value.get_char(0) == '#'
}

/// Writes one attribute to an opening tag, and reports its value where it is
/// a color outside the palette.
fn render_attribute(attribute: &Attribute, out: &mut String, unknown: &mut Vec<Diagnostic>)
    ensures
        final(out)@ == old(out)@ + attribute_markup(attribute@),
        final(unknown).deep_view() == old(unknown).deep_view() + attribute_diagnostics(
            attribute@,
        ),
{
    let name = strip_namespace(attribute.name.as_str());
    if name == "filter".to_owned() {
        proof {
            assert(out@ + Seq::<char>::empty() =~= out@);
            assert(unknown.deep_view() + Seq::<DiagnosticView>::empty() =~= unknown.deep_view());
        }
        return ;
    }
    let ghost before = out@;
    let ghost reported = unknown.deep_view();
    out.append(" ");
    out.append(name.as_str());
    out.append("=\"");
    if has_color_shape(attribute.value.as_str()) {
        match lookup_color(attribute.value.as_str()) {
            Some(token) => {
                out.append(token.css());
                proof {
                    assert(reported + Seq::<DiagnosticView>::empty() =~= reported);
                }
            },
            None => {
                out.append(attribute.value.as_str());
                unknown.push(Diagnostic::UnknownColor(attribute.value.clone()));
                proof {
                    assert(unknown.deep_view() =~= reported + seq![
                        DiagnosticView::UnknownColor(attribute.value@),
                    ]);
                }
            },
        }
    } else {
        out.append(attribute.value.as_str());
        proof {
            assert(reported + Seq::<DiagnosticView>::empty() =~= reported);
        }
    }
    out.append("\"");
    proof {
        assert(out@ =~= before + attribute_markup(attribute@));
    }
}

/// Writes a list of attributes to an opening tag.
fn render_attributes(
    attributes: &Vec<Attribute>,
    out: &mut String,
    unknown: &mut Vec<Diagnostic>,
)
    ensures
        final(out)@ == old(out)@ + attributes_markup(attribute_views(attributes@)),
        final(unknown).deep_view() == old(unknown).deep_view() + attributes_diagnostics(
            attribute_views(attributes@),
        ),
{
    let ghost views = attribute_views(attributes@);
    let ghost before = out@;
    let ghost reported = unknown.deep_view();
    let mut i: usize = 0;
    proof {
        assert(before + attributes_markup(views.take(0)) =~= before);
        assert(reported + attributes_diagnostics(views.take(0)) =~= reported);
    }
    while i < attributes.len()
        invariant
            i <= attributes.len(),
            views == attribute_views(attributes@),
            out@ == before + attributes_markup(views.take(i as int)),
            unknown.deep_view() == reported + attributes_diagnostics(views.take(i as int)),
        decreases attributes.len() - i,
    {
        proof {
            assert(views.take(i + 1).drop_last() =~= views.take(i as int));
            assert(views.take(i + 1).last() == attributes@[i as int]@);
        }
        render_attribute(&attributes[i], out, unknown);
        proof {
            assert(out@ =~= before + attributes_markup(views.take(i + 1)));
            assert(unknown.deep_view() =~= reported + attributes_diagnostics(views.take(i + 1)));
        }
        i += 1;
    }
    proof {
        assert(views.take(attributes.len() as int) =~= views);
    }
}

/// Writes a stream of events as flat markup.
///
/// Element and attribute names lose the SVG namespace. The character data of
/// `style` elements is left out; the tags stay. `filter` attributes are left
/// out. A value in the shape of a literal color becomes the theme token of
/// its family; outside the palette it stays as it is and is reported. An
/// error of the reader is reported too, and leaves no trace in the markup.
pub fn render_events(events: &Vec<SvgEvent>) -> (rendered: SvgMarkup)
    ensures
        rendered.markup@ == markup(event_views(events@)),
        rendered.diagnostics.deep_view() == diagnostics(event_views(events@)),
{
    let ghost views = event_views(events@);
    let mut out = String::new();
    let mut unknown: Vec<Diagnostic> = Vec::new();
    let mut suppressed = false;
    let mut i: usize = 0;
    proof {
        assert(unknown.deep_view() =~= Seq::<DiagnosticView>::empty());
    }
    while i < events.len()
        invariant
            i <= events.len(),
            views == event_views(events@),
            out@ == markup(views.take(i as int)),
            unknown.deep_view() == diagnostics(views.take(i as int)),
            suppressed == suppressed_after(views.take(i as int)),
        decreases events.len() - i,
    {
        proof {
            assert(views.take(i + 1).drop_last() =~= views.take(i as int));
            assert(views.take(i + 1).last() == events@[i as int]@);
        }
        let ghost reported = unknown.deep_view();
        match &events[i] {
            SvgEvent::StartElement { name, attributes } => {
                let name = strip_namespace(name.as_str());
                out.append("<");
                out.append(name.as_str());
                render_attributes(attributes, &mut out, &mut unknown);
                out.append(">");
                if name == "style".to_owned() {
                    suppressed = true;
                }
            },
            SvgEvent::Characters(text) => {
                if !suppressed {
                    out.append(text.as_str());
                }
                proof {
                    assert(reported + Seq::<DiagnosticView>::empty() =~= reported);
                }
            },
            SvgEvent::EndElement { name } => {
                let name = strip_namespace(name.as_str());
                if name == "style".to_owned() {
                    suppressed = false;
                }
                out.append("</");
                out.append(name.as_str());
                out.append(">");
                proof {
                    assert(reported + Seq::<DiagnosticView>::empty() =~= reported);
                }
            },
            SvgEvent::Error(reason) => {
                unknown.push(Diagnostic::MalformedAsset(reason.clone()));
                proof {
                    assert(unknown.deep_view() =~= reported + seq![
                        DiagnosticView::MalformedAsset(reason@),
                    ]);
                }
            },
            SvgEvent::Other => {
                proof {
                    assert(reported + Seq::<DiagnosticView>::empty() =~= reported);
                }
            },
        }
        proof {
            assert(out@ =~= markup(views.take(i + 1)));
        }
        i += 1;
    }
    proof {
        assert(views.take(events.len() as int) =~= views);
    }
    SvgMarkup { markup: out, diagnostics: unknown }
}

/// Reads a vector graphic and writes it as flat, themed markup: the
/// rendering of the events that the XML reader yields for `data`.
pub fn process_svg(data: &[u8]) -> (rendered: SvgMarkup)
    ensures
        rendered.markup@ == markup(xml_events(data@)),
        rendered.diagnostics.deep_view() == diagnostics(xml_events(data@)),
{
    let events = read_events(data);
    render_events(&events)
}

} // verus!

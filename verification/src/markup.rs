//! XML documents as flat lists of events, and their rendering to bytes.

use crate::failure::Failure;
use vstd::prelude::*;

verus! {

/// One step of an XML document, in document order.
#[derive(Debug)]
pub enum Event {
    /// An opening tag with its attributes, namespace declarations among them.
    Start { name: String, attributes: Vec<(String, String)> },
    /// Character data.
    Text(String),
    /// The closing tag of the innermost open element.
    End,
}

/// The mathematical value of an [`Event`].
pub enum EventView {
    Start { name: Seq<char>, attributes: Seq<(Seq<char>, Seq<char>)> },
    Text(Seq<char>),
    End,
}

/// The values of a list of attributes.
pub open spec fn attribute_views(attributes: Seq<(String, String)>) -> Seq<(Seq<char>, Seq<char>)> {
    attributes.map_values(|a: (String, String)| (a.0@, a.1@))
}

impl View for Event {
    type V = EventView;

    open spec fn view(&self) -> EventView {
        match self {
            Event::Start { name, attributes } => EventView::Start {
                name: name@,
                attributes: attribute_views(attributes@),
            },
            Event::Text(text) => EventView::Text(text@),
            Event::End => EventView::End,
        }
    }
}

/// The values of a list of events.
pub open spec fn event_views(events: Seq<Event>) -> Seq<EventView> {
    events.map_values(|e: Event| e@)
}

/// An opening tag named `name`, without attributes.
pub open spec fn element(name: Seq<char>) -> EventView {
    EventView::Start { name, attributes: Seq::empty() }
}

/// Character data.
pub open spec fn characters(text: Seq<char>) -> EventView {
    EventView::Text(text)
}

/// A closing tag.
pub open spec fn end_element() -> EventView {
    EventView::End
}

impl EventView {
    /// This opening tag with one more attribute at the end. Other events have
    /// no attributes and stay as they are.
    pub open spec fn attr(self, name: Seq<char>, value: Seq<char>) -> EventView {
        match self {
            EventView::Start { name: element, attributes } => EventView::Start {
                name: element,
                attributes: attributes.push((name, value)),
            },
            other => other,
        }
    }
}

impl Event {
    /// An opening tag named `name`, without attributes.
    pub fn start_element(name: &str) -> (r: Event)
        ensures
            r@ == element(name@),
    {
        let r = Event::Start { name: name.to_owned(), attributes: Vec::new() };
        assert(attribute_views(Seq::<(String, String)>::empty()) =~= Seq::empty());
        r
    }

    /// Character data.
    pub fn characters(text: &str) -> (r: Event)
        ensures
            r@ == characters(text@),
    {
        Event::Text(text.to_owned())
    }

    /// A closing tag.
    pub fn end_element() -> (r: Event)
        ensures
            r@ == end_element(),
    {
        Event::End
    }

    /// This opening tag with one more attribute at the end.
    pub fn attr(self, name: &str, value: &str) -> (r: Event)
        ensures
            r@ == self@.attr(name@, value@),
    {
        match self {
            Event::Start { name: element, attributes } => {
                let mut attributes = attributes;
                let ghost before = attributes@;
                let pair = (name.to_owned(), value.to_owned());
                attributes.push(pair);
                assert(attribute_views(before.push(pair)) =~= attribute_views(before).push(
                    (name@, value@),
                ));
                Event::Start { name: element, attributes }
            },
            Event::Text(text) => Event::Text(text),
            Event::End => Event::End,
        }
    }
}

/// Appending an event appends its value.
pub proof fn lemma_event_views_push(events: Seq<Event>, e: Event)
    ensures
        event_views(events.push(e)) == event_views(events).push(e@),
{
    assert(event_views(events.push(e)) =~= event_views(events).push(e@));
}

/// The views of a concatenation are the concatenation of the views.
pub proof fn lemma_event_views_add(a: Seq<Event>, b: Seq<Event>)
    ensures
        event_views(a + b) == event_views(a) + event_views(b),
{
    assert(event_views(a + b) =~= event_views(a) + event_views(b));
}

/// Appends `event` to `out`.
pub fn emit(out: &mut Vec<Event>, event: Event)
    ensures
        event_views(final(out)@) == event_views(old(out)@).push(event@),
{
    proof {
        lemma_event_views_push(out@, event);
    }
    out.push(event);
}

/// Appends every event of `more` to `out`.
pub fn emit_all(out: &mut Vec<Event>, more: Vec<Event>)
    ensures
        event_views(final(out)@) == event_views(old(out)@) + event_views(more@),
{
    let mut more = more;
    proof {
        lemma_event_views_add(out@, more@);
    }
    out.append(&mut more);
}

/// An element without content: its opening tag and its closing tag.
pub open spec fn leaf(start: EventView) -> Seq<EventView> {
    seq![start, end_element()]
}

/// An element that holds text: its opening tag, the text and its closing tag.
pub open spec fn text_element(start: EventView, text: Seq<char>) -> Seq<EventView> {
    seq![start, characters(text), end_element()]
}

/// Appends an element without content to `out`.
pub fn emit_leaf(out: &mut Vec<Event>, start: Event)
    ensures
        event_views(final(out)@) == event_views(old(out)@) + leaf(start@),
{
    emit(out, start);
    emit(out, Event::end_element());
    assert(event_views(out@) =~= event_views(old(out)@) + leaf(start@));
}

/// Appends an element that holds `text` to `out`.
pub fn emit_text_element(out: &mut Vec<Event>, start: Event, text: &str)
    ensures
        event_views(final(out)@) == event_views(old(out)@) + text_element(start@, text@),
{
    emit(out, start);
    emit(out, Event::characters(text));
    emit(out, Event::end_element());
    assert(event_views(out@) =~= event_views(old(out)@) + text_element(start@, text@));
}

/// An empty list of events.
pub fn no_events() -> (r: Vec<Event>)
    ensures
        event_views(r@) == Seq::<EventView>::empty(),
{
    let r: Vec<Event> = Vec::new();
    assert(event_views(r@) =~= Seq::<EventView>::empty());
    r
}

/// Whether the documents of the library are indented.
pub const INDENT: bool = true;

/// The bytes that the XML writer produces for a document, preceded by the
/// XML declaration; indented with two spaces a level where `indent` is set,
/// with text and attribute values escaped where `escape` is set. `None`
/// where the writer refuses the events, as it does a closing tag that closes
/// nothing.
pub uninterp spec fn rendered_xml(events: Seq<EventView>, indent: bool, escape: bool) -> Option<
    Seq<u8>,
>;

/// `xml::writer::Error`, the error of the XML writer. It is carried from the
/// writer to `write_elements` and never looked into.
#[verifier::external_type_specification]
#[verifier::external_body]
pub struct ExEmitterError(xml::writer::Error);

/// Feeds `events` one by one to `xml::writer::EventWriter::write`, on a
/// writer that indents only where `indent` is set and escapes text and
/// attribute values only where `escape` is set, and hands back what the
/// writer produced. The result is the writer's output for exactly these
/// events, or its error.
#[verifier::external_body]
fn write_events(events: &Vec<Event>, indent: bool, escape: bool) -> (r: Result<
    Vec<u8>,
    xml::writer::Error,
>)
    ensures
        match r {
            Ok(bytes) => rendered_xml(event_views(events@), indent, escape) == Some(bytes@),
            Err(_) => rendered_xml(event_views(events@), indent, escape) is None,
        },
{
    let mut config = xml::EmitterConfig::new().perform_indent(indent);
    config.perform_escaping = escape;
    let mut writer = config.create_writer(Vec::new());
    for event in events {
        match event {
            Event::Start { name, attributes } => {
                let mut start = xml::writer::XmlEvent::start_element(name.as_str());
                for (key, value) in attributes { start = start.attr(key.as_str(), value.as_str()); }
                writer.write(start)?
            },
            Event::Text(text) => writer.write(xml::writer::XmlEvent::characters(text))?,
            Event::End => writer.write(xml::writer::XmlEvent::end_element())?,
        }
    }
    Ok(writer.into_inner())
}

/// Renders a document to bytes, indented. Fails with `Failure::Format` exactly where the
/// writer refuses the events.
pub fn write_elements(events: &Vec<Event>, escape: bool) -> (r: Result<Vec<u8>, Failure>)
    ensures
        match r {
            Ok(bytes) => rendered_xml(event_views(events@), INDENT, escape) == Some(bytes@),
            Err(e) => rendered_xml(event_views(events@), INDENT, escape) is None && e is Format,
        },
{
    match write_events(events, INDENT, escape) {
        Ok(bytes) => Ok(bytes),
        Err(_) => Err(Failure::Format { reason: "the document is not well formed".to_owned() }),
    }
}

} // verus!

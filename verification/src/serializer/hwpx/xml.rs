//! The XML the HWPX writers produce, as a list of events (start tag, empty
//! tag, end tag, text) that `quick_xml` turns into text.

use crate::text::{decimal, push_decimal, push_signed_decimal, signed_decimal, string_of,
    string_push_str};
use quick_xml::events::{BytesEnd, BytesStart, BytesText, Event};
use quick_xml::Writer;
use vstd::prelude::*;

verus! {

/// One XML event: a start tag or an empty tag with its attributes in order,
/// an end tag, or text.
pub enum XmlEvent {
    Start { name: String, attrs: Vec<(String, String)> },
    Empty { name: String, attrs: Vec<(String, String)> },
    End { name: String },
    Text { content: String },
}

/// An XML event as characters.
pub enum XmlItem {
    Start(Seq<char>, Seq<(Seq<char>, Seq<char>)>),
    Empty(Seq<char>, Seq<(Seq<char>, Seq<char>)>),
    End(Seq<char>),
    Text(Seq<char>),
}

/// Attributes as characters.
pub open spec fn attrs_view(a: Seq<(String, String)>) -> Seq<(Seq<char>, Seq<char>)> {
    a.map_values(|p: (String, String)| (p.0@, p.1@))
}

impl View for XmlEvent {
    type V = XmlItem;

    open spec fn view(&self) -> XmlItem {
        match self {
            XmlEvent::Start { name, attrs } => XmlItem::Start(name@, attrs_view(attrs@)),
            XmlEvent::Empty { name, attrs } => XmlItem::Empty(name@, attrs_view(attrs@)),
            XmlEvent::End { name } => XmlItem::End(name@),
            XmlEvent::Text { content } => XmlItem::Text(content@),
        }
    }
}

/// The events written so far, in order.
pub struct XmlWriter {
    pub events: Vec<XmlEvent>,
}

impl View for XmlWriter {
    type V = Seq<XmlItem>;

    open spec fn view(&self) -> Seq<XmlItem> {
        self.events@.map_values(|e: XmlEvent| e@)
    }
}

impl XmlWriter {
    /// A writer with no events.
    pub fn new() -> (w: Self)
        ensures
            w@ == Seq::<XmlItem>::empty(),
    {
        let w = XmlWriter { events: Vec::new() };
        assert(w@ =~= Seq::<XmlItem>::empty());
        w
    }
}

fn push_event(w: &mut XmlWriter, e: XmlEvent)
    ensures
        final(w)@ == old(w)@.push(e@),
{
    w.events.push(e);
    assert(w@ =~= old(w)@.push(e@));
}

/// An attribute: its name and value.
pub fn attr(key: &str, value: String) -> (p: (String, String))
    ensures
        p.0@ == key@,
        p.1@ == value@,
{
    (string_of(key), value)
}

/// An attribute with a fixed value.
pub fn attr_str(key: &str, value: &str) -> (p: (String, String))
    ensures
        p.0@ == key@,
        p.1@ == value@,
{
    (string_of(key), string_of(value))
}

/// An unsigned number in decimal.
pub fn dec(n: u64) -> (s: String)
    ensures
        s@ == decimal(n as nat),
{
    let mut s = String::new();
    push_decimal(&mut s, n);
    s
}

/// A signed number in decimal.
pub fn sdec(n: i64) -> (s: String)
    ensures
        s@ == signed_decimal(n as int),
{
    let mut s = String::new();
    push_signed_decimal(&mut s, n);
    s
}

/// Writes an empty tag `<name a="v" .../>`.
pub fn empty_tag(w: &mut XmlWriter, name: &str, attrs: Vec<(String, String)>)
    ensures
        final(w)@ == old(w)@.push(XmlItem::Empty(name@, attrs_view(attrs@))),
{
    push_event(w, XmlEvent::Empty { name: string_of(name), attrs });
}

/// Writes a start tag with no attributes.
pub fn start_tag(w: &mut XmlWriter, name: &str)
    ensures
        final(w)@ == old(w)@.push(XmlItem::Start(name@, Seq::empty())),
{
    let attrs: Vec<(String, String)> = Vec::new();
    proof {
        assert(attrs_view(attrs@) =~= Seq::<(Seq<char>, Seq<char>)>::empty());
    }
    push_event(w, XmlEvent::Start { name: string_of(name), attrs });
}

/// Writes a start tag with attributes.
pub fn start_tag_attrs(w: &mut XmlWriter, name: &str, attrs: Vec<(String, String)>)
    ensures
        final(w)@ == old(w)@.push(XmlItem::Start(name@, attrs_view(attrs@))),
{
    push_event(w, XmlEvent::Start { name: string_of(name), attrs });
}

/// Writes an end tag.
pub fn end_tag(w: &mut XmlWriter, name: &str)
    ensures
        final(w)@ == old(w)@.push(XmlItem::End(name@)),
{
    push_event(w, XmlEvent::End { name: string_of(name) });
}

/// Writes text.
pub fn text(w: &mut XmlWriter, s: &str)
    ensures
        final(w)@ == old(w)@.push(XmlItem::Text(s@)),
{
    push_event(w, XmlEvent::Text { content: string_of(s) });
}

// ---------------------------------------------------------------------------
// Rendering with quick_xml
// ---------------------------------------------------------------------------

/// How an attribute value is escaped.
pub open spec fn attr_value_char(c: char) -> Seq<char> {
    if c == '<' {
        "&lt;"@
    } else if c == '>' {
        "&gt;"@
    } else if c == '&' {
        "&amp;"@
    } else if c == '\'' {
        "&apos;"@
    } else if c == '"' {
        "&quot;"@
    } else if c == '\r' {
        "&#13;"@
    } else if c == '\n' {
        "&#10;"@
    } else if c == '\t' {
        "&#9;"@
    } else {
        seq![c]
    }
}

/// How a text character is escaped.
pub open spec fn text_char(c: char) -> Seq<char> {
    if c == '<' {
        "&lt;"@
    } else if c == '>' {
        "&gt;"@
    } else if c == '&' {
        "&amp;"@
    } else if c == '\'' {
        "&apos;"@
    } else if c == '"' {
        "&quot;"@
    } else if c == '\r' {
        "&#13;"@
    } else {
        seq![c]
    }
}

/// Each character of `s` escaped by `f`, in order.
pub open spec fn escaped(s: Seq<char>, f: spec_fn(char) -> Seq<char>) -> Seq<char>
    decreases s.len(),
{
    if s.len() == 0 {
        Seq::empty()
    } else {
        escaped(s.drop_last(), f) + f(s.last())
    }
}

/// The attributes of a tag as written: ` key="value"` each.
pub open spec fn attrs_text(a: Seq<(Seq<char>, Seq<char>)>) -> Seq<char>
    decreases a.len(),
{
    if a.len() == 0 {
        Seq::empty()
    } else {
        attrs_text(a.drop_last()) + " "@ + a.last().0 + "=\""@ + escaped(
            a.last().1,
            |c: char| attr_value_char(c),
        ) + "\""@
    }
}

/// An event as written.
pub open spec fn item_text(e: XmlItem) -> Seq<char> {
    match e {
        XmlItem::Start(n, a) => "<"@ + n + attrs_text(a) + ">"@,
        XmlItem::Empty(n, a) => "<"@ + n + attrs_text(a) + "/>"@,
        XmlItem::End(n) => "</"@ + n + ">"@,
        XmlItem::Text(t) => escaped(t, |c: char| text_char(c)),
    }
}

/// Events as written, one after the other.
pub open spec fn items_text(es: Seq<XmlItem>) -> Seq<char>
    decreases es.len(),
{
    if es.len() == 0 {
        Seq::empty()
    } else {
        items_text(es.drop_last()) + item_text(es.last())
    }
}

/// A start tag written by `quick_xml::Writer::write_event` into a fresh
/// writer with default settings: `<name key="value"...>`, each attribute
/// value (given as a `(&str, &str)` pair) escaped for `< > & ' "`, carriage
/// return, line feed and tab. Writing into a `Vec<u8>` does not fail, and
/// the bytes are the UTF-8 of the characters.
#[verifier::external_body]
fn quick_xml_start(name: &str, attrs: &Vec<(String, String)>) -> (s: String)
    ensures
        s@ == item_text(XmlItem::Start(name@, attrs_view(attrs@))),
{
    let mut w = Writer::new(Vec::new());
    let tag = BytesStart::new(name).with_attributes(attrs.iter().map(|(k, v)| (k.as_str(), v.as_str())));
    let _ = w.write_event(Event::Start(tag));
    String::from_utf8(w.into_inner()).unwrap_or_default()
}

/// An empty tag written by `quick_xml::Writer::write_event` into a fresh
/// writer with default settings: as a start tag, but closed by `/>` with no
/// space before the slash.
#[verifier::external_body]
fn quick_xml_empty(name: &str, attrs: &Vec<(String, String)>) -> (s: String)
    ensures
        s@ == item_text(XmlItem::Empty(name@, attrs_view(attrs@))),
{
    let mut w = Writer::new(Vec::new());
    let tag = BytesStart::new(name).with_attributes(attrs.iter().map(|(k, v)| (k.as_str(), v.as_str())));
    let _ = w.write_event(Event::Empty(tag));
    String::from_utf8(w.into_inner()).unwrap_or_default()
}

/// An end tag written by `quick_xml::Writer::write_event`: `</name>`.
#[verifier::external_body]
fn quick_xml_end(name: &str) -> (s: String)
    ensures
        s@ == item_text(XmlItem::End(name@)),
{
    let mut w = Writer::new(Vec::new());
    let _ = w.write_event(Event::End(BytesEnd::new(name)));
    String::from_utf8(w.into_inner()).unwrap_or_default()
}

/// Text written by `quick_xml::Writer::write_event` from `BytesText::new`,
/// which escapes `< > & ' "` and carriage return.
#[verifier::external_body]
fn quick_xml_text(content: &str) -> (s: String)
    ensures
        s@ == item_text(XmlItem::Text(content@)),
{
    let mut w = Writer::new(Vec::new());
    let _ = w.write_event(Event::Text(BytesText::new(content)));
    String::from_utf8(w.into_inner()).unwrap_or_default()
}

/// One event as `quick_xml` writes it.
fn event_text(e: &XmlEvent) -> (s: String)
    ensures
        s@ == item_text(e@),
{
    match e {
        XmlEvent::Start { name, attrs } => quick_xml_start(name.as_str(), attrs),
        XmlEvent::Empty { name, attrs } => quick_xml_empty(name.as_str(), attrs),
        XmlEvent::End { name } => quick_xml_end(name.as_str()),
        XmlEvent::Text { content } => quick_xml_text(content.as_str()),
    }
}

/// The text of everything written, each event as `quick_xml` writes it.
pub fn render_xml(w: &XmlWriter) -> (s: String)
    ensures
        s@ == items_text(w@),
{
    let mut s = String::new();
    for i in 0..w.events.len()
        invariant
            s@ == items_text(w@.take(i as int)),
    {
        let t = event_text(&w.events[i]);
        string_push_str(&mut s, t.as_str());
        proof {
            assert(w@.take(i + 1).drop_last() =~= w@.take(i as int));
            assert(w@.take(i + 1).last() == w.events@[i as int]@);
        }
    }
    proof {
        assert(w@.take(w@.len() as int) =~= w@);
    }
    s
}

} // verus!

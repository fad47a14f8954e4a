//! Reading XML: `quick_xml`'s events as plain values.

use quick_xml::events::Event::{CData, Empty, End, Eof, Start, Text};
use vstd::prelude::*;

use crate::text::{lossy, opt_text};

verus! {

/// An attribute of a tag: its name, its value with entities resolved if they
/// could be, and its value as it stands in the file.
pub struct XmlAttr {
    pub key: String,
    pub value: Option<String>,
    pub raw: String,
}

/// An [`XmlAttr`] as a mathematical value.
pub struct AttrState {
    pub key: Seq<char>,
    pub value: Option<Seq<char>>,
    pub raw: Seq<char>,
}

impl View for XmlAttr {
    type V = AttrState;

    open spec fn view(&self) -> AttrState {
        AttrState { key: self.key@, value: opt_text(self.value), raw: self.raw@ }
    }
}

/// The values of a run of attributes.
pub open spec fn attr_states(attrs: Seq<XmlAttr>) -> Seq<AttrState> {
    attrs.map_values(|a: XmlAttr| a@)
}

/// One thing read from a document.
pub enum XmlEvent {
    /// A tag opened.
    Open(String, Vec<XmlAttr>),
    /// A tag opened and closed at once.
    Empty(String, Vec<XmlAttr>),
    /// A tag closed.
    Close(String),
    /// Text with its entities resolved, or nothing where they could not be.
    Text(Option<String>),
    /// A CDATA section.
    CData(String),
    /// A comment, a declaration, and the like.
    Other,
    /// The end of the document.
    End,
    /// The document is broken: at which byte, and how.
    Malformed(u64, String),
}

/// An [`XmlEvent`] as a mathematical value.
pub enum EventState {
    Open(Seq<char>, Seq<AttrState>),
    Empty(Seq<char>, Seq<AttrState>),
    Close(Seq<char>),
    Text(Option<Seq<char>>),
    CData(Seq<char>),
    Other,
    End,
    Malformed(u64, Seq<char>),
}

impl View for XmlEvent {
    type V = EventState;

    open spec fn view(&self) -> EventState {
        match *self {
            XmlEvent::Open(tag, attrs) => EventState::Open(tag@, attr_states(attrs@)),
            XmlEvent::Empty(tag, attrs) => EventState::Empty(tag@, attr_states(attrs@)),
            XmlEvent::Close(tag) => EventState::Close(tag@),
            XmlEvent::Text(text) => EventState::Text(opt_text(text)),
            XmlEvent::CData(text) => EventState::CData(text@),
            XmlEvent::Other => EventState::Other,
            XmlEvent::End => EventState::End,
            XmlEvent::Malformed(at, why) => EventState::Malformed(at, why@),
        }
    }
}

impl EventState {
    /// Whether reading stops here.
    pub open spec fn last(self) -> bool {
        self is End || self is Malformed
    }
}

/// The values of a run of events.
pub open spec fn event_states(events: Seq<XmlEvent>) -> Seq<EventState> {
    events.map_values(|e: XmlEvent| e@)
}

/// `quick_xml`'s reader, an opaque value.
#[verifier::external_type_specification]
#[verifier::external_body]
#[verifier::reject_recursive_types(R)]
pub struct ExReader<R>(quick_xml::Reader<R>);

/// `quick_xml`'s opening tag, an opaque value.
#[verifier::external_type_specification]
#[verifier::external_body]
pub struct ExBytesStart<'a>(quick_xml::events::BytesStart<'a>);

/// The event that `quick_xml` reads from a document after `index` others, text
/// not trimmed.
pub uninterp spec fn xml_event(document: Seq<char>, index: nat) -> EventState;

/// `BytesStart::attributes`, attributes that are not well-formed left out, and
/// `Attribute::unescape_value` of each. Nothing is claimed of them here: they
/// are part of the event that [`XmlReader::next`] names.
#[verifier::external_body]
fn attributes_of(tag: &quick_xml::events::BytesStart) -> (attrs: Vec<XmlAttr>) {
    tag.attributes()
        .flatten()
        .map(|a| XmlAttr {
            key: lossy(a.key.as_ref()),
            value: a.unescape_value().ok().map(|v| v.into_owned()),
            raw: lossy(&a.value),
        })
        .collect()
}

/// `Reader::from_str`, with text left untrimmed: a reader at the start of the
/// document.
#[verifier::external_body]
fn reader_of<'a>(document: &'a str) -> (reader: quick_xml::Reader<&'a [u8]>) {
    let mut reader = quick_xml::Reader::from_str(document);
    reader.config_mut().trim_text(false);
    reader
}

/// A reader, the document it reads, and how many events it has read.
pub struct XmlReader<'a> {
    reader: quick_xml::Reader<&'a [u8]>,
    document: Ghost<Seq<char>>,
    read: Ghost<nat>,
}

impl<'a> XmlReader<'a> {
    pub closed spec fn document(&self) -> Seq<char> {
        self.document@
    }

    pub closed spec fn read(&self) -> nat {
        self.read@
    }

    /// A reader at the start of the document.
    pub fn new(document: &'a str) -> (reader: XmlReader<'a>)
        ensures
            reader.document() == document@,
            reader.read() == 0,
    {
        XmlReader { reader: reader_of(document), document: Ghost(document@), read: Ghost(0) }
    }

    /// `Reader::read_event_into`: the next event of the document. Every event
    /// takes at least one character of the document with it, so there are no
    /// more of them than that before the end.
    #[verifier::external_body]
    pub(crate) fn next(&mut self) -> (event: XmlEvent)
        ensures
            final(self).document() == old(self).document(),
            final(self).read() == old(self).read() + 1,
            event@ == xml_event(old(self).document(), old(self).read()),
            !event@.last() ==> old(self).read() < old(self).document().len(),
    {
        match self.reader.read_event_into(&mut Vec::new()) {
            Ok(Start(e)) => XmlEvent::Open(lossy(e.name().0), attributes_of(&e)),
            Ok(Empty(e)) => XmlEvent::Empty(lossy(e.name().0), attributes_of(&e)),
            Ok(End(e)) => XmlEvent::Close(lossy(e.name().0)),
            Ok(Text(e)) => XmlEvent::Text(e.unescape().ok().map(|t| t.into_owned())),
            Ok(CData(e)) => XmlEvent::CData(lossy(&e)),
            Ok(Eof) => XmlEvent::End,
            Ok(_) => XmlEvent::Other,
            Err(e) => XmlEvent::Malformed(self.reader.buffer_position(), e.to_string()),
        }
    }
}

} // verus!

//! The markup reader: structural events of a document held in memory, as the
//! `quick_xml` crate reads them, handed on as plain values.

use vstd::prelude::*;

verus! {

/// One structural event of a markup document.
pub enum XmlEvent {
    /// A start tag: the tag's content (its name, then its attributes) and the
    /// length of the name.
    Start { content: Vec<u8>, name_len: usize },
    /// An end tag, with the name it closes.
    End { name: Vec<u8> },
    /// Character data, still escaped.
    Text { escaped: Vec<u8> },
    /// A comment, a declaration or another event without data for this library.
    Other,
    /// The end of the document.
    Eof,
    /// The reader cannot go on; the message is the reader's own.
    Failure { message: String },
}

/// The mathematical value of an `XmlEvent`.
pub enum XmlEventView {
    Start { content: Seq<u8>, name_len: nat },
    End { name: Seq<u8> },
    Text { escaped: Seq<u8> },
    Other,
    Eof,
    Failure { message: Seq<char> },
}

impl View for XmlEvent {
    type V = XmlEventView;

    open spec fn view(&self) -> XmlEventView {
        match self {
            XmlEvent::Start { content, name_len } => XmlEventView::Start {
                content: content@,
                name_len: *name_len as nat,
            },
            XmlEvent::End { name } => XmlEventView::End { name: name@ },
            XmlEvent::Text { escaped } => XmlEventView::Text { escaped: escaped@ },
            XmlEvent::Other => XmlEventView::Other,
            XmlEvent::Eof => XmlEventView::Eof,
            XmlEvent::Failure { message } => XmlEventView::Failure { message: message@ },
        }
    }
}

/// One attribute of a start tag: its key and its value, the value still escaped.
#[derive(Debug, Clone, PartialEq, Eq)]
pub struct XmlAttribute {
    /// The key, as it stands in the tag.
    pub key: Vec<u8>,
    /// The value without its quotes, as it stands in the tag.
    pub value: Vec<u8>,
}

impl View for XmlAttribute {
    type V = (Seq<u8>, Seq<u8>);

    open spec fn view(&self) -> (Seq<u8>, Seq<u8>) {
        (self.key@, self.value@)
    }
}

/// The mathematical value of what the attribute iterator yields: an attribute,
/// or the message of the failure that ends the iteration.
pub open spec fn spec_attribute_item(item: Result<XmlAttribute, String>) -> Result<
    (Seq<u8>, Seq<u8>),
    Seq<char>,
> {
    match item {
        Ok(attribute) => Ok(attribute@),
        Err(message) => Err(message@),
    }
}

/// The mathematical values of a list of attribute items.
pub open spec fn spec_attribute_items(items: Seq<Result<XmlAttribute, String>>) -> Seq<
    Result<(Seq<u8>, Seq<u8>), Seq<char>>,
> {
    items.map_values(|item: Result<XmlAttribute, String>| spec_attribute_item(item))
}

/// The mathematical value of decoded character data, or of the failure's message.
pub open spec fn spec_decoded(text: Result<String, String>) -> Result<Seq<char>, Seq<char>> {
    match text {
        Ok(decoded) => Ok(decoded@),
        Err(message) => Err(message@),
    }
}

/// A `quick_xml` reader over a document held in memory. It expands an empty
/// element into a start and an end event, trims the text around character data
/// and drops text that is empty after that, and checks that each end tag closes
/// the element that is open.
#[verifier::external_body]
pub struct EventReader {
    inner: quick_xml::Reader<std::io::Cursor<Vec<u8>>>,
}

/// The events that a reader has yet to yield before it reports the end of its
/// document. A failure of the reader is the last of them.
pub uninterp spec fn reader_pending(reader: EventReader) -> Seq<XmlEventView>;

/// The events that a reader yields for a document, from its start to its end.
pub uninterp spec fn xml_events(document: Seq<u8>) -> Seq<XmlEventView>;

/// What `quick_xml`'s attribute iterator yields for the content of a start tag
/// whose name has the given length.
pub uninterp spec fn xml_attributes(content: Seq<u8>, name_len: int) -> Seq<
    Result<(Seq<u8>, Seq<u8>), Seq<char>>,
>;

/// Character data with its escape sequences resolved and decoded as UTF-8, or the
/// message of `quick_xml`'s failure to do so.
pub uninterp spec fn xml_unescaped(escaped: Seq<u8>) -> Result<Seq<char>, Seq<char>>;

/// Makes a reader with `quick_xml::Reader::from_reader`, and sets it to expand
/// empty elements and to trim text. The contract gives a name to the events that
/// such a reader yields for the document; it states nothing else of them.
#[verifier::external_body]
pub(crate) fn open_reader(document: Vec<u8>) -> (reader: EventReader)
    ensures
        reader_pending(reader) == xml_events(document@),
{
    let mut inner = quick_xml::Reader::from_reader(std::io::Cursor::new(document));
    inner.expand_empty_elements(true).trim_text(true);
    EventReader { inner }
}

/// Reads the next event with `quick_xml::Reader::read_event`. The contract claims
/// that the reader hands out its pending events one by one, in order, and reports
/// the end of the document once none is left; and that the name of a start tag
/// lies within the tag's content, as the reader's source shows.
#[verifier::external_body]
pub(crate) fn read_event(reader: &mut EventReader) -> (event: XmlEvent)
    ensures
        reader_pending(*old(reader)).len() > 0 ==> event@ == reader_pending(*old(reader))[0]
            && reader_pending(*final(reader)) == reader_pending(*old(reader)).drop_first(),
        reader_pending(*old(reader)).len() == 0 ==> event is Eof && reader_pending(*final(reader))
            == reader_pending(*old(reader)),
        event matches XmlEvent::Start { content, name_len } ==> name_len <= content@.len(),
{
    let mut buf = Vec::new();
    match reader.inner.read_event(&mut buf) {
        Ok(quick_xml::events::Event::Start(e)) => XmlEvent::Start {
            content: e.to_vec(),
            name_len: e.name().len(),
        },
        Ok(quick_xml::events::Event::End(e)) => XmlEvent::End { name: e.name().to_vec() },
        Ok(quick_xml::events::Event::Text(e)) => XmlEvent::Text { escaped: e.escaped().to_vec() },
        Ok(quick_xml::events::Event::Eof) => XmlEvent::Eof,
        Ok(_) => XmlEvent::Other,
        Err(e) => XmlEvent::Failure { message: e.to_string() },
    }
}

/// Collects what `quick_xml::events::attributes::Attributes` yields for the
/// content of a start tag: each attribute as it stands in the tag, and the
/// message of the failure that ends the iteration, if there is one.
#[verifier::external_body]
pub(crate) fn read_attributes(content: &[u8], name_len: usize) -> (items: Vec<
    Result<XmlAttribute, String>,
>)
    requires
        name_len <= content@.len(),
    ensures
        spec_attribute_items(items@) == xml_attributes(content@, name_len as int),
{
    quick_xml::events::attributes::Attributes::new(content, name_len).map(
        |item| match item {
            Ok(a) => Ok(XmlAttribute { key: a.key.to_vec(), value: a.value.into_owned() }),
            Err(e) => Err(e.to_string()),
        },
    ).collect()
}

/// Resolves the escape sequences of character data and decodes it as UTF-8, with
/// `quick_xml::events::BytesText::unescape_and_decode`. Built without the crate's
/// `encoding` feature, that function reads nothing of the reader it is given.
#[verifier::external_body]
pub(crate) fn unescape_text(reader: &EventReader, escaped: &[u8]) -> (text: Result<String, String>)
    ensures
        spec_decoded(text) == xml_unescaped(escaped@),
{
    quick_xml::events::BytesText::from_escaped(escaped).unescape_and_decode(&reader.inner).map_err(
        |e| e.to_string(),
    )
}

} // verus!

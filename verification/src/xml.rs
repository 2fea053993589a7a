//! The XML event stream that the concept parsers consume, read with `quick_xml`.

use quick_xml::events::Event;
use quick_xml::Reader;
use vstd::prelude::*;
use vstd::utf8::{decode_utf8, valid_utf8};

verus! {

/// One event of the XML stream, as the parsers see it.
pub enum XmlEvent {
    /// An opening tag, with its name in bytes.
    Start(Vec<u8>),
    /// A closing tag, with its name in bytes.
    End(Vec<u8>),
    /// Character data, as it stands in the input (escaped).
    Text(Vec<u8>),
    /// The end of the input.
    Eof,
    /// A read error; the stream ends here.
    Error,
    /// Any other event (empty tags, comments, declarations, ...).
    Other,
}

/// The mathematical content of an [`XmlEvent`].
pub enum XmlToken {
    Start(Seq<u8>),
    End(Seq<u8>),
    Text(Seq<u8>),
    Eof,
    Error,
    Other,
}

impl View for XmlEvent {
    type V = XmlToken;

    open spec fn view(&self) -> XmlToken {
        match self {
            XmlEvent::Start(n) => XmlToken::Start(n@),
            XmlEvent::End(n) => XmlToken::End(n@),
            XmlEvent::Text(t) => XmlToken::Text(t@),
            XmlEvent::Eof => XmlToken::Eof,
            XmlEvent::Error => XmlToken::Error,
            XmlEvent::Other => XmlToken::Other,
        }
    }
}

/// Whether a token ends the stream.
pub open spec fn is_terminal(t: XmlToken) -> bool {
    t is Eof || t is Error
}

/// The tokens of a list of events.
pub open spec fn event_tokens(events: Seq<XmlEvent>) -> Seq<XmlToken> {
    events.map_values(|e: XmlEvent| e@)
}

/// The events that `quick_xml` reads from `input` with text trimming on, up to and
/// including the first end of input or error.
pub uninterp spec fn xml_tokens(input: Seq<char>) -> Seq<XmlToken>;

/// Reads `input` with a `quick_xml::Reader` (`Reader::from_str`, with
/// `Config::trim_text(true)`), calling `Reader::read_event` until it hands out
/// the end of input or an error, and returns those events: each opening or closing
/// tag with its name (`BytesStart::name`, `BytesEnd::name`), character data as it
/// stands in the input (`BytesText::into_inner`), and the final end of input or error.
/// The reader hands out at most one event more than `input` has characters, each
/// event before the last consuming at least one, so the reading ends.
#[verifier::external_body]
pub(crate) fn xml_events(input: &str) -> (events: Vec<XmlEvent>)
    ensures
        event_tokens(events@) == xml_tokens(input@),
{
    let mut reader = Reader::from_str(input);
    reader.config_mut().trim_text(true);
    let mut events = Vec::new();
    loop {
        match reader.read_event() {
            Ok(Event::Start(e)) => events.push(XmlEvent::Start(e.name().into_inner().to_vec())),
            Ok(Event::End(e)) => events.push(XmlEvent::End(e.name().into_inner().to_vec())),
            Ok(Event::Text(e)) => events.push(XmlEvent::Text(e.into_inner().into_owned())),
            Ok(Event::Eof) => return { events.push(XmlEvent::Eof); events },
            Ok(_) => events.push(XmlEvent::Other),
            Err(_) => return { events.push(XmlEvent::Error); events },
        }
    }
}

/// What `quick_xml::escape::unescape` makes of `text`: the text with its entity and
/// character references replaced, or `None` where one cannot be resolved.
pub uninterp spec fn xml_unescaped(text: Seq<char>) -> Option<Seq<char>>;

/// `quick_xml::escape::unescape` with the predefined XML entities, made owned.
#[verifier::external_body]
pub(crate) fn xml_unescape(text: &str) -> (r: Option<String>)
    ensures
        r matches Some(t) ==> xml_unescaped(text@) == Some(t@),
        r is None ==> xml_unescaped(text@) is None,
{
    match quick_xml::escape::unescape(text) {
        Ok(t) => Some(t.into_owned()),
        Err(_) => None,
    }
}

/// `std::str::from_utf8`, made owned: the text `bytes` encode, or `None` where they
/// are not valid UTF-8.
#[verifier::external_body]
pub(crate) fn utf8_decode(bytes: &Vec<u8>) -> (r: Option<String>)
    ensures
        r matches Some(t) ==> valid_utf8(bytes@) && t@ == decode_utf8(bytes@),
        r is None ==> !valid_utf8(bytes@),
{
    match std::str::from_utf8(bytes.as_slice()) {
        Ok(t) => Some(t.to_owned()),
        Err(_) => None,
    }
}

/// The text of character data as it stands in the input: decoded as UTF-8, then
/// unescaped, as `BytesText::unescape` does for a reader over a string.
pub open spec fn text_content(raw: Seq<u8>) -> Option<Seq<char>> {
    if valid_utf8(raw) {
        xml_unescaped(decode_utf8(raw))
    } else {
        None
    }
}

/// The text of character data; `None` where it is not UTF-8 or cannot be unescaped.
pub fn text_of(raw: &Vec<u8>) -> (r: Option<String>)
    ensures
        r matches Some(t) ==> text_content(raw@) == Some(t@),
        r is None ==> text_content(raw@) is None,
{
    match utf8_decode(raw) {
        Some(decoded) => xml_unescape(decoded.as_str()),
        None => None,
    }
}

} // verus!

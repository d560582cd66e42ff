//! Calls into std and outside crates whose contracts are taken on trust. Each
//! item says which function it calls and what its contract claims of it.
use vstd::prelude::*;
use rand::Rng;
use crate::tiles::source::opt_str_view;
use crate::gpx::{events_view, XmlAttribute, XmlEvent, XmlEventView};
use xml::reader::{EventReader, ParserConfig, XmlEvent as ParserEvent};

verus! {

#[verifier::external_type_specification]
#[verifier::external_body]
pub struct ExSystemTime(std::time::SystemTime);

/// `std::time::SystemTime::now()`: the system clock's reading. Nothing is
/// claimed of it: it depends on the clock.
#[verifier::external_body]
pub(crate) fn system_time_now() -> std::time::SystemTime {
    std::time::SystemTime::now()
}

/// `t.duration_since(UNIX_EPOCH)`: for a time at or after the epoch, `Ok`
/// with the whole seconds and the nanoseconds after it; for a time before
/// it, `Err` with the whole seconds and the nanoseconds it lies before (the
/// error's `duration`). Both are read with `Duration::as_secs` and
/// `subsec_nanos`, whose nanoseconds are below 10^9 as std documents.
/// Nothing else is claimed: the value depends on the clock.
#[verifier::external_body]
pub(crate) fn time_since_epoch(t: &std::time::SystemTime) -> (r: Result<(u64, u32), (u64, u32)>)
    ensures
        match r {
            Ok(d) => d.1 < 1_000_000_000,
            Err(d) => d.1 < 1_000_000_000,
        },
{
    match t.duration_since(std::time::UNIX_EPOCH) {
        Ok(d) => Ok((d.as_secs(), d.subsec_nanos())),
        Err(e) => Err((e.duration().as_secs(), e.duration().subsec_nanos())),
    }
}

/// `rand::thread_rng().gen::<usize>()`: a random number. Nothing is claimed
/// of its value.
#[verifier::external_body]
pub(crate) fn random_usize() -> usize {
    rand::thread_rng().gen::<usize>()
}

/// `num_cpus::get()`: the number of CPUs this process may use. Nothing is
/// claimed of its value: it depends on the machine.
#[verifier::external_body]
pub(crate) fn cpu_count() -> usize {
    num_cpus::get()
}

/// What `image::load_from_memory` followed by `to_rgba8` makes of encoded image
/// bytes: the RGBA bytes, the width and the height, or `None` when the bytes
/// are not a decodable image.
pub uninterp spec fn decoded_rgba(encoded: Seq<u8>) -> Option<(Seq<u8>, u32, u32)>;

/// `image::load_from_memory(encoded)`, then `to_rgba8()` and `into_raw()`.
/// Success and the result are `decoded_rgba` of the bytes; the RGBA buffer is
/// built by `ImageBuffer::new(width, height)` and so holds four bytes per
/// pixel. On failure the error's message is returned; nothing is claimed of
/// its text.
#[verifier::external_body]
pub(crate) fn decode_rgba(encoded: &Vec<u8>) -> (r: Result<(Vec<u8>, u32, u32), String>)
    ensures
        match r {
            Err(_) => decoded_rgba(encoded@) is None,
            Ok(d) => decoded_rgba(encoded@) == Some((d.0@, d.1, d.2)) && d.0@.len() == 4 * d.1
                * d.2,
        },
{
    match image::load_from_memory(encoded.as_slice()) {
        Ok(img) => {
            let rgba = img.to_rgba8();
            let (w, h) = rgba.dimensions();
            Ok((rgba.into_raw(), w, h))
        },
        Err(e) => Err(e.to_string()),
    }
}

#[verifier::external_type_specification]
#[verifier::external_body]
pub struct ExUrlParseError(url::ParseError);

/// Whether `url::Url::parse` accepts the text.
pub uninterp spec fn url_accepts(text: Seq<char>) -> bool;

/// `url::Url::scheme` of the url that `url::Url::parse` makes of the text.
pub uninterp spec fn url_scheme_of(text: Seq<char>) -> Seq<char>;

/// `url::Url::host_str` of the url that `url::Url::parse` makes of the text.
pub uninterp spec fn url_host_of(text: Seq<char>) -> Option<Seq<char>>;

/// `url::Url::port_or_known_default` of the url that `url::Url::parse` makes
/// of the text.
pub uninterp spec fn url_port_of(text: Seq<char>) -> Option<u16>;

/// `url::Url::as_str` of the url that `url::Url::parse` makes of the text:
/// the url's serialization.
pub uninterp spec fn url_text_of(text: Seq<char>) -> Seq<char>;

/// A parsed url as plain values: its serialization and the parts that the
/// library reads of it.
#[derive(Debug)]
pub struct ParsedUrl {
    pub text: String,
    pub scheme: String,
    pub host: Option<String>,
    pub port: Option<u16>,
}

/// `url::Url::parse(text)`, then the parsed url's `as_str`, `scheme`,
/// `host_str` and `port_or_known_default`, made owned values. Whether parsing
/// succeeds is `url_accepts` of the text; the serialization and the parts are
/// `url_text_of`, `url_scheme_of`, `url_host_of` and `url_port_of` of the
/// text. Parsing depends on the text alone.
#[verifier::external_body]
pub(crate) fn parse_url(text: &str) -> (r: Result<ParsedUrl, url::ParseError>)
    ensures
        r is Ok == url_accepts(text@),
        r matches Ok(p) ==> {
            &&& p.text@ == url_text_of(text@)
            &&& p.scheme@ == url_scheme_of(text@)
            &&& opt_str_view(p.host) == url_host_of(text@)
            &&& p.port == url_port_of(text@)
        },
{
    match url::Url::parse(text) {
        Ok(url) => {
            let text = url.as_str().to_string();
            let scheme = url.scheme().to_string();
            let host = url.host_str().map(String::from);
            let port = url.port_or_known_default();
            Ok(ParsedUrl { text, scheme, host, port })
        },
        Err(e) => Err(e),
    }
}

/// `ToString::to_string` of a `url::ParseError`: its message. Nothing is
/// claimed of the text.
#[verifier::external_body]
pub(crate) fn url_error_text(e: &url::ParseError) -> String {
    e.to_string()
}

/// `std::path::Path::new(path).exists()`: whether something is at the path.
/// Nothing is claimed: the answer depends on the file system.
#[verifier::external_body]
pub(crate) fn path_exists(path: &str) -> bool {
    std::path::Path::new(path).exists()
}

/// The characters that `char::to_lowercase` gives for `c`.
pub uninterp spec fn lowercase_of(c: char) -> Seq<char>;

/// `c.to_lowercase()`, collected: the lower-case mapping of `c`, which is
/// `lowercase_of(c)`. A character without a lower-case mapping of its own
/// yields itself, as std documents; the lower-case ASCII letters, the ASCII
/// digits, `+`, `-`, `_` and the lower-case letter `ķ` are such characters.
/// An upper-case ASCII letter yields its lower-case letter, 32 code points on.
#[verifier::external_body]
pub(crate) fn lowercase_chars(c: char) -> (r: Vec<char>)
    ensures
        r@ == lowercase_of(c),
        ('a' <= c <= 'z') || ('0' <= c <= '9') || c == '+' || c == '-' || c == '_' || c == '\u{137}'
            ==> r@ == seq![c],
        'A' <= c <= 'Z' ==> r@ == seq![((c as int) + 32) as char],
{
    c.to_lowercase().collect()
}

/// The events that `xml::reader::EventReader` reports for the document, read
/// through its event iterator, which stops after the end of the document or
/// the first error, with the configuration of `parse_xml_events`.
pub uninterp spec fn xml_events(doc: Seq<u8>) -> Seq<XmlEventView>;

/// `xml::reader::EventReader::new_with_config` on the bytes, with whitespace
/// trimmed and CDATA taken for characters (comments ignored and characters
/// coalesced, as by default), its events collected. Each event is converted
/// one for one: start and end elements keep their local names, attributes
/// their local names and values; an error becomes `Failed`, any other event
/// `Other`. The result is `xml_events` of the bytes: the parse depends on
/// them alone.
#[verifier::external_body]
pub(crate) fn parse_xml_events(doc: &Vec<u8>) -> (v: Vec<XmlEvent>)
    ensures
        events_view(v@) == xml_events(doc@),
{
    let config = ParserConfig::new().trim_whitespace(true).cdata_to_characters(true);
    EventReader::new_with_config(doc.as_slice(), config).into_iter().map(|ev| match ev {
        Ok(ParserEvent::StartDocument { .. }) => XmlEvent::StartDocument,
        Ok(ParserEvent::StartElement { name, attributes, .. }) => XmlEvent::StartElement {
            name: name.local_name,
            attributes: attributes.into_iter().map(|a| XmlAttribute { name: a.name.local_name, value: a.value }).collect(),
        },
        Ok(ParserEvent::Characters(s)) => XmlEvent::Characters(s),
        Ok(ParserEvent::EndElement { name }) => XmlEvent::EndElement { name: name.local_name },
        Ok(ParserEvent::EndDocument) => XmlEvent::EndDocument,
        Ok(_) => XmlEvent::Other,
        Err(_) => XmlEvent::Failed,
    }).collect()
}

/// What `chrono::NaiveDateTime::parse_from_str` makes of the text in the
/// format, taken as UTC: seconds since the Unix epoch and nanoseconds, or
/// `None` when the text does not parse.
pub uninterp spec fn utc_time_parsed(text: Seq<char>, format: Seq<char>) -> Option<(i64, u32)>;

/// `chrono::NaiveDateTime::parse_from_str(text, format)`, then `and_utc`,
/// read with `timestamp` and `timestamp_subsec_nanos`: `utc_time_parsed` of
/// the text and the format. Parsing depends on them alone.
#[verifier::external_body]
pub(crate) fn parse_utc_time(text: &str, format: &str) -> (r: Option<(i64, u32)>)
    ensures
        r == utc_time_parsed(text@, format@),
{
    match chrono::NaiveDateTime::parse_from_str(text, format) {
        Ok(time) => Some((time.and_utc().timestamp(), time.and_utc().timestamp_subsec_nanos())),
        Err(_) => None,
    }
}

/// What `chrono::DateTime::parse_from_str` makes of the text in the format,
/// whose offset it gives: seconds since the Unix epoch and nanoseconds, or
/// `None` when the text does not parse.
pub uninterp spec fn zoned_time_parsed(text: Seq<char>, format: Seq<char>) -> Option<(i64, u32)>;

/// `chrono::DateTime::parse_from_str(text, format)`, read with `timestamp`
/// and `timestamp_subsec_nanos`: `zoned_time_parsed` of the text and the
/// format. Parsing depends on them alone.
#[verifier::external_body]
pub(crate) fn parse_zoned_time(text: &str, format: &str) -> (r: Option<(i64, u32)>)
    ensures
        r == zoned_time_parsed(text@, format@),
{
    match chrono::DateTime::parse_from_str(text, format) {
        Ok(time) => Some((time.timestamp(), time.timestamp_subsec_nanos())),
        Err(_) => None,
    }
}

/// Whether the `regex` crate takes `c` for a word character, one that `\w`
/// matches.
pub uninterp spec fn word_char(c: char) -> bool;

/// `regex::Regex::new(r"\A\w\z")` matched against `c` alone: whether `c` is a
/// word character, which is `word_char(c)`. The pattern is valid, so
/// compiling it does not fail.
#[verifier::external_body]
pub(crate) fn is_word_char(c: char) -> (r: bool)
    ensures
        r == word_char(c),
{
    let mut buf = [0u8; 4];
    regex::Regex::new(r"\A\w\z").expect("valid pattern").is_match(c.encode_utf8(&mut buf))
}

} // verus!

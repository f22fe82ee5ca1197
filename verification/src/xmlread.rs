//! Thin trusted layer over `quick_xml`: a pull reader whose events
//! are converted, one variant per arm, into the library's own event
//! type. The state machines that interpret the events are verified.

use vstd::prelude::*;

verus! {

/// One XML event, reduced to what the manifest parsers need: element
/// names are local names, attribute values and text are unescaped.
pub enum XmlEvent {
    /// An opening tag with its attributes.
    Start(String, Vec<(String, String)>),
    /// A self-closing tag with its attributes.
    Empty(String, Vec<(String, String)>),
    /// A closing tag.
    End(String),
    /// Text content.
    Text(String),
    /// Any other event (declaration, comment, CDATA, ...).
    Other,
    /// End of the document, or a syntax error that ends reading.
    Eof,
}

/// `quick_xml::Reader`, declared so that it can appear in signatures.
#[verifier::external_type_specification]
#[verifier::external_body]
#[verifier::reject_recursive_types(R)]
pub struct ExXmlReader<R>(quick_xml::Reader<R>);

/// `quick_xml::events::BytesStart`, the payload of opening tags.
#[verifier::external_type_specification]
#[verifier::external_body]
pub struct ExBytesStart<'a>(quick_xml::events::BytesStart<'a>);

/// Relies on `quick_xml::Reader::from_str` and `Config::trim_text`:
/// a reader over a string with surrounding text whitespace trimmed.
#[verifier::external_body]
pub fn xml_reader_from(s: &str) -> quick_xml::Reader<&[u8]> {
    let mut reader = quick_xml::Reader::from_str(s);
    reader.config_mut().trim_text(true);
    reader
}

/// Relies on `BytesStart::name` and `LocalName::as_ref`: the tag's
/// local name.
#[verifier::external_body]
fn tag_name(e: &quick_xml::events::BytesStart<'_>) -> String {
    e.name().local_name().as_ref().to_string()
}

/// Relies on `BytesStart::attributes` and `Attribute::normalized_value`:
/// hands the attributes out as name/value pairs, values unescaped,
/// ill-formed attributes skipped.
#[verifier::external_body]
fn attr_pairs(e: &quick_xml::events::BytesStart<'_>) -> Vec<(String, String)> {
    e.attributes().flatten().map(
        |a| (
            a.key.local_name().as_ref().to_string(),
            a.normalized_value(quick_xml::XmlVersion::Implicit1_0).unwrap_or_default()
                .into_owned(),
        ),
    ).collect()
}

/// Relies on `quick_xml::Reader::read_event`: the next event of the
/// document, converted variant by variant; errors read as `Eof`.
#[verifier::external_body]
pub fn xml_next_event(reader: &mut quick_xml::Reader<&[u8]>) -> XmlEvent {
    match reader.read_event() {
        Ok(quick_xml::events::Event::Start(e)) => XmlEvent::Start(tag_name(&e), attr_pairs(&e)),
        Ok(quick_xml::events::Event::Empty(e)) => XmlEvent::Empty(tag_name(&e), attr_pairs(&e)),
        Ok(quick_xml::events::Event::End(e)) => XmlEvent::End(
            e.name().local_name().as_ref().to_string(),
        ),
        Ok(quick_xml::events::Event::Text(e)) => XmlEvent::Text(e.xml10_content().into_owned()),
        Ok(quick_xml::events::Event::Eof) => XmlEvent::Eof,
        Ok(_) => XmlEvent::Other,
        Err(_) => XmlEvent::Eof,
    }
}

} // verus!

//! Content encoding: which responses carry text that could be sent encoded.
//! No encoding is offered.

use vstd::prelude::*;
use vstd::string::*;
use crate::negotiation::CONTENT_TYPE;
use crate::response::Response;
use crate::text::{
    ascii_lowercase, chars_of, contains_chars, has_infix, has_prefix, lowercase_chars, matches_at,
};

verus! {

pub const CONTENT_ENCODING: &'static str = "Content-Encoding";

/// The content type is written in characters: it starts with `text/`, or
/// names javascript, json or xml. Capitals count as their lower case.
pub open spec fn is_textual(content_type: Seq<char>) -> bool {
    let lower = ascii_lowercase(content_type);
    has_prefix(lower, "text/"@) || has_infix(lower, "javascript"@) || has_infix(lower, "json"@)
        || has_infix(lower, "xml"@)
}

/// The content type names content that encodes well: text, or a font.
pub open spec fn is_text_type(content_type: Seq<char>) -> bool {
    is_textual(content_type) || has_infix(ascii_lowercase(content_type), "font"@)
}

/// The response has a content type, and it names content that encodes well.
pub open spec fn has_text_content(response: Response) -> bool {
    match response.header(CONTENT_TYPE@) {
        Some(value) => is_text_type(value),
        None => false,
    }
}

/// Whether the content type is written in characters.
pub fn names_characters(content_type: &str) -> (textual: bool)
    ensures
        textual == is_textual(content_type@),
{
    let lower = lowercase_chars(content_type);
    matches_at(&lower, &chars_of("text/"), 0) || contains_chars(&lower, &chars_of("javascript"))
        || contains_chars(&lower, &chars_of("json")) || contains_chars(&lower, &chars_of("xml"))
}

/// Whether the content type names content that encodes well.
pub fn names_text(content_type: &str) -> (text: bool)
    ensures
        text == is_text_type(content_type@),
{
    names_characters(content_type) || contains_chars(
        &lowercase_chars(content_type),
        &chars_of("font"),
    )
}

/// Whether the response has a content type that names content that encodes
/// well.
pub fn content_is_text(response: &Response) -> (text: bool)
    ensures
        text == has_text_content(*response),
{
    match response.get_header(CONTENT_TYPE) {
        Some(value) => names_text(value),
        None => false,
    }
}

/// Whether the response says how it is encoded.
pub fn has_content_encoding_header(response: &Response) -> (encoded: bool)
    ensures
        encoded == response.header(CONTENT_ENCODING@).is_some(),
{
    response.get_header(CONTENT_ENCODING).is_some()
}

/// Encodes the body in an encoding that the client accepts. No encoding is
/// offered, so the response stays as it is, whatever it carries and whatever
/// the `Accept-Encoding` header of the request says.
pub fn apply(response: &mut Response, _accept_encoding: Option<&str>)
    ensures
        *final(response) == *old(response),
{
    if !content_is_text(response) || has_content_encoding_header(response) {
        return ;
    }
}

} // verus!

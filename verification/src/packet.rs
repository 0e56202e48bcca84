//! From a captured frame to an HTTP message.
//!
//! A frame is examined as it was captured: the bytes are taken as text
//! whole, link, network and transport headers included, and no part is
//! stripped before the text is searched. A frame that starts with such
//! headers is therefore recognised only by the `HTTP/` marker somewhere in
//! it, and the text handed on still holds whatever preceded the message.

use vstd::prelude::*;
use vstd::utf8::{decode_utf8, valid_utf8};
use crate::http_parser::{
    header_names, http_message, parse_http_data, reported_fields, text_of, HttpMessage,
    HttpRequest,
};
use crate::text::{chars_contain, chars_of, chars_start_with, has_infix, has_prefix};

verus! {

/// Frames shorter than this hold no message.
pub const MIN_PACKET_LEN: usize = 20;

/// Whether `text` shows a sign of HTTP: the protocol marker anywhere, or
/// one of four request methods at its start.
pub open spec fn looks_like_http(text: Seq<char>) -> bool {
    ||| has_infix(text, "HTTP/"@)
    ||| has_prefix(text, "GET "@)
    ||| has_prefix(text, "POST "@)
    ||| has_prefix(text, "PUT "@)
    ||| has_prefix(text, "DELETE "@)
}

/// The text of a frame that may hold an HTTP message: the frame decoded
/// as UTF-8, where it is long enough, decodes, and looks like HTTP.
pub open spec fn http_text(packet: Seq<u8>) -> Option<Seq<char>> {
    if packet.len() >= MIN_PACKET_LEN && valid_utf8(packet) && looks_like_http(
        decode_utf8(packet),
    ) {
        Some(decode_utf8(packet))
    } else {
        None
    }
}

/// The message that a frame holds: its text read as an outgoing message.
pub open spec fn packet_message(packet: Seq<u8>) -> Option<HttpMessage> {
    match http_text(packet) {
        Some(text) => http_message(text, true),
        None => None,
    }
}

/// Calls `std::str::from_utf8` on `bytes`. Trusted: the call succeeds on
/// valid UTF-8 and on nothing else, and gives the text that the bytes
/// encode.
#[verifier::external_body]
fn utf8_text(bytes: &[u8]) -> (text: Option<&str>)
    ensures
        text is Some <==> valid_utf8(bytes@),
        text matches Some(s) ==> s@ == decode_utf8(bytes@),
{
    std::str::from_utf8(bytes).ok()
}

/// Tells whether `text` shows a sign of HTTP.
pub fn is_http_like(text: &str) -> (r: bool)
    ensures
        r == looks_like_http(text@),
{
    let chars = chars_of(text);
    chars_contain(&chars, &chars_of("HTTP/")) || chars_start_with(&chars, &chars_of("GET "))
        || chars_start_with(&chars, &chars_of("POST ")) || chars_start_with(
        &chars,
        &chars_of("PUT "),
    ) || chars_start_with(&chars, &chars_of("DELETE "))
}

/// Takes the text out of a captured frame where it may hold an HTTP
/// message.
pub fn extract_http_from_packet(packet_data: &[u8]) -> (text: Option<String>)
    ensures
        text_of(text) == http_text(packet_data@),
{
    if packet_data.len() < MIN_PACKET_LEN {
        return None;
    }
    match utf8_text(packet_data) {
        Some(data_str) => {
            if is_http_like(data_str) {
                return Some(data_str.to_owned());
            }
        },
        None => {},
    }
    None
}

/// Reads the HTTP message that a captured frame holds, if it holds one.
pub fn process_packet(packet_data: &[u8]) -> (message: Option<HttpRequest>)
    ensures
        match message {
            Some(m) => packet_message(packet_data@) == Some(m@) && http_text(packet_data@) is Some
                && m.header_order() == header_names(
                reported_fields(http_text(packet_data@)->0, true),
            ),
            None => packet_message(packet_data@) is None,
        },
{
    match extract_http_from_packet(packet_data) {
        Some(http_data) => parse_http_data(http_data.as_str(), true),
        None => None,
    }
}

} // verus!

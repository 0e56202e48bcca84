//! Reading HTTP messages out of captured payload text.
//!
//! The head of a message (start line and header fields) is parsed by the
//! `httparse` crate. What that parser reports is held in [`RequestHead`]
//! and [`ResponseHead`]; everything made of it afterwards is verified here.
//! Bodies are never read: a message's `body` is always `None`.

use vstd::prelude::*;
use vstd::string::StringExecFns;
use vstd::utf8::{decode_utf8, encode_utf8, valid_utf8};
use crate::name_map::NameMap;
use crate::numeral::{decimal, decimal_text};
use crate::search::{first_index, lemma_first_index_is, lemma_first_index_none};
use crate::text::{chars_of, has_prefix, starts_with};

verus! {

/// The most header fields that a message may carry; a head with more is
/// not a message.
pub const MAX_HEADERS: usize = 64;

/// How far the parser got with the head of a message.
#[derive(Debug, Clone, Copy, PartialEq, Eq, Structural)]
pub enum HeadStatus {
    /// The head is there in full.
    Complete,
    /// The bytes end before the head does.
    Partial,
    /// The bytes are no head of this kind, or hold too many fields.
    Invalid,
}

/// What the parser reports of the head of a request.
#[derive(Debug)]
pub struct RequestHead {
    pub status: HeadStatus,
    pub method: Option<String>,
    pub path: Option<String>,
    pub fields: Vec<(String, Vec<u8>)>,
}

/// What the parser reports of the head of a response.
#[derive(Debug)]
pub struct ResponseHead {
    pub status: HeadStatus,
    pub code: Option<u16>,
    pub reason: Option<String>,
    pub fields: Vec<(String, Vec<u8>)>,
}

/// Mathematical content of a [`RequestHead`].
pub struct RequestHeadView {
    pub status: HeadStatus,
    pub method: Option<Seq<char>>,
    pub path: Option<Seq<char>>,
    pub fields: Seq<(Seq<char>, Seq<u8>)>,
}

/// Mathematical content of a [`ResponseHead`].
pub struct ResponseHeadView {
    pub status: HeadStatus,
    pub code: Option<u16>,
    pub reason: Option<Seq<char>>,
    pub fields: Seq<(Seq<char>, Seq<u8>)>,
}

/// The text held by an optional string.
pub open spec fn text_of(s: Option<String>) -> Option<Seq<char>> {
    match s {
        Some(s) => Some(s@),
        None => None,
    }
}

/// The names and raw values held by a sequence of header fields.
pub open spec fn field_views(fields: Seq<(String, Vec<u8>)>) -> Seq<(Seq<char>, Seq<u8>)> {
    fields.map_values(|f: (String, Vec<u8>)| (f.0@, f.1@))
}

impl View for RequestHead {
    type V = RequestHeadView;

    open spec fn view(&self) -> RequestHeadView {
        RequestHeadView {
            status: self.status,
            method: text_of(self.method),
            path: text_of(self.path),
            fields: field_views(self.fields@),
        }
    }
}

impl View for ResponseHead {
    type V = ResponseHeadView;

    open spec fn view(&self) -> ResponseHeadView {
        ResponseHeadView {
            status: self.status,
            code: self.code,
            reason: text_of(self.reason),
            fields: field_views(self.fields@),
        }
    }
}

/// What `httparse` reports when it parses `data` as the head of a request
/// with room for `capacity` header fields.
pub uninterp spec fn request_head(data: Seq<u8>, capacity: usize) -> RequestHeadView;

/// What `httparse` reports when it parses `data` as the head of a response
/// with room for `capacity` header fields.
pub uninterp spec fn response_head(data: Seq<u8>, capacity: usize) -> ResponseHeadView;

/// The text that std's lossy UTF-8 conversion makes of `bytes`.
pub uninterp spec fn utf8_lossy(bytes: Seq<u8>) -> Seq<char>;

/// Calls `httparse::Request::parse` on `data` with a fresh buffer of
/// `capacity` empty header slots. Trusted: the report is a function of
/// `data` and `capacity` alone, named `request_head`. It holds the
/// parser's status, the `method` and `path` it set, and the header slots
/// it left in the request, copied out one for one.
#[verifier::external_body]
fn parse_request_head(data: &[u8], capacity: usize) -> (head: RequestHead)
    ensures
        head@ == request_head(data@, capacity),
{
    let mut slots = vec![httparse::EMPTY_HEADER; capacity];
    let mut request = httparse::Request::new(&mut slots);
    let status = match request.parse(data) {
        Ok(httparse::Status::Complete(_)) => HeadStatus::Complete,
        Ok(httparse::Status::Partial) => HeadStatus::Partial,
        Err(_) => HeadStatus::Invalid,
    };
    RequestHead {
        status,
        method: request.method.map(String::from),
        path: request.path.map(String::from),
        fields: request.headers.iter().map(|h| (h.name.to_string(), h.value.to_vec())).collect(),
    }
}

/// Calls `httparse::Response::parse` on `data` with a fresh buffer of
/// `capacity` empty header slots. Trusted: the report is a function of
/// `data` and `capacity` alone, named `response_head`. It holds the
/// parser's status, the `code` and `reason` it set, and the header slots
/// it left in the response, copied out one for one.
#[verifier::external_body]
fn parse_response_head(data: &[u8], capacity: usize) -> (head: ResponseHead)
    ensures
        head@ == response_head(data@, capacity),
{
    let mut slots = vec![httparse::EMPTY_HEADER; capacity];
    let mut response = httparse::Response::new(&mut slots);
    let status = match response.parse(data) {
        Ok(httparse::Status::Complete(_)) => HeadStatus::Complete,
        Ok(httparse::Status::Partial) => HeadStatus::Partial,
        Err(_) => HeadStatus::Invalid,
    };
    ResponseHead {
        status,
        code: response.code,
        reason: response.reason.map(String::from),
        fields: response.headers.iter().map(|h| (h.name.to_string(), h.value.to_vec())).collect(),
    }
}

/// Calls `String::from_utf8_lossy` on `bytes`. Trusted: the text is a
/// function of `bytes` alone, named `utf8_lossy`, and bytes that are valid
/// UTF-8 give the text that they encode.
#[verifier::external_body]
fn lossy_text(bytes: &[u8]) -> (text: String)
    ensures
        text@ == utf8_lossy(bytes@),
        valid_utf8(bytes@) ==> text@ == decode_utf8(bytes@),
{
    String::from_utf8_lossy(bytes).into_owned()
}

/// An HTTP message seen on the wire.
#[derive(Debug)]
pub enum HttpRequest {
    Request { method: String, url: String, headers: NameMap<String>, body: Option<String> },
    Response { status: String, headers: NameMap<String>, body: Option<String> },
}

/// Mathematical content of an [`HttpRequest`].
pub enum HttpMessage {
    Request {
        method: Seq<char>,
        url: Seq<char>,
        headers: Map<Seq<char>, Seq<char>>,
        body: Option<Seq<char>>,
    },
    Response { status: Seq<char>, headers: Map<Seq<char>, Seq<char>>, body: Option<Seq<char>> },
}

/// The texts held by a map of strings.
pub open spec fn header_texts(headers: Map<Seq<char>, String>) -> Map<Seq<char>, Seq<char>> {
    headers.map_values(|value: String| value@)
}

impl HttpRequest {
    /// The names of the message's header fields in the order in which they
    /// first occurred.
    pub open spec fn header_order(&self) -> Seq<Seq<char>> {
        match self {
            HttpRequest::Request { headers, .. } => headers.names(),
            HttpRequest::Response { headers, .. } => headers.names(),
        }
    }
}

impl View for HttpRequest {
    type V = HttpMessage;

    open spec fn view(&self) -> HttpMessage {
        match self {
            HttpRequest::Request { method, url, headers, body } => HttpMessage::Request {
                method: method@,
                url: url@,
                headers: header_texts(headers@),
                body: text_of(*body),
            },
            HttpRequest::Response { status, headers, body } => HttpMessage::Response {
                status: status@,
                headers: header_texts(headers@),
                body: text_of(*body),
            },
        }
    }
}

/// The text of a header value: the text that the bytes encode where they
/// are valid UTF-8, else what the lossy conversion makes of them.
pub open spec fn value_text(bytes: Seq<u8>) -> Seq<char> {
    if valid_utf8(bytes) {
        decode_utf8(bytes)
    } else {
        utf8_lossy(bytes)
    }
}

/// The header map that a sequence of fields writes down. Fields without a
/// name are passed over; a value is read as text; of fields with one name,
/// the last stands.
pub open spec fn headers_of(fields: Seq<(Seq<char>, Seq<u8>)>) -> Map<Seq<char>, Seq<char>>
    decreases fields.len(),
{
    if fields.len() == 0 {
        Map::empty()
    } else {
        let earlier = headers_of(fields.drop_last());
        let field = fields.last();
        if field.0.len() > 0 {
            earlier.insert(field.0, value_text(field.1))
        } else {
            earlier
        }
    }
}

/// The names of the header map that a sequence of fields writes down, in
/// the order in which they first occur.
pub open spec fn header_names(fields: Seq<(Seq<char>, Seq<u8>)>) -> Seq<Seq<char>>
    decreases fields.len(),
{
    if fields.len() == 0 {
        Seq::empty()
    } else {
        let earlier = header_names(fields.drop_last());
        let field = fields.last();
        if field.0.len() > 0 && !headers_of(fields.drop_last()).contains_key(field.0) {
            earlier.push(field.0)
        } else {
            earlier
        }
    }
}

/// `c` in lower case, where it is an ASCII capital.
pub open spec fn ascii_lower(c: char) -> char {
    if 'A' <= c <= 'Z' {
        ((c as u32) + 32) as char
    } else {
        c
    }
}

/// Whether two texts are equal but for the case of ASCII letters.
pub open spec fn same_ignoring_case(a: Seq<char>, b: Seq<char>) -> bool {
    &&& a.len() == b.len()
    &&& forall|k: int| 0 <= k < a.len() ==> ascii_lower(#[trigger] a[k]) == ascii_lower(b[k])
}

/// The test that a field is named `host` in any case of its letters.
pub open spec fn host_field_test() -> spec_fn((Seq<char>, Seq<u8>)) -> bool {
    |field: (Seq<char>, Seq<u8>)| same_ignoring_case(field.0, "host"@)
}

/// The host that a request names: the value of its `Host` header, else of
/// `host`, else of the first field named so in any other case, else the
/// placeholder `unknown`.
pub open spec fn host_of(fields: Seq<(Seq<char>, Seq<u8>)>) -> Seq<char> {
    let headers = headers_of(fields);
    if headers.contains_key("Host"@) {
        headers["Host"@]
    } else if headers.contains_key("host"@) {
        headers["host"@]
    } else {
        match first_index(fields, host_field_test()) {
            Some(i) => headers[fields[i].0],
            None => "unknown"@,
        }
    }
}

/// The absolute URL of a request: its path where that begins with `http`,
/// else `http://`, the host and the path.
pub open spec fn absolute_url(path: Seq<char>, host: Seq<char>) -> Seq<char> {
    if has_prefix(path, "http"@) {
        path
    } else {
        "http://"@ + host + path
    }
}

/// The request that a parser's report stands for, if it stands for one.
pub open spec fn request_of(head: RequestHeadView) -> Option<HttpMessage> {
    if head.status == HeadStatus::Complete && head.method is Some && head.path is Some {
        Some(
            HttpMessage::Request {
                method: head.method->0,
                url: absolute_url(head.path->0, host_of(head.fields)),
                headers: headers_of(head.fields),
                body: None,
            },
        )
    } else {
        None
    }
}

/// The status line of a response: its code in decimal, a space, and its
/// reason phrase, or `Unknown` where it has none.
pub open spec fn status_text(code: u16, reason: Option<Seq<char>>) -> Seq<char> {
    decimal_text(code as nat) + " "@ + match reason {
        Some(phrase) => phrase,
        None => "Unknown"@,
    }
}

/// The response that a parser's report stands for, if it stands for one.
pub open spec fn response_of(head: ResponseHeadView) -> Option<HttpMessage> {
    if head.status == HeadStatus::Complete && head.code is Some {
        Some(
            HttpMessage::Response {
                status: status_text(head.code->0, head.reason),
                headers: headers_of(head.fields),
                body: None,
            },
        )
    } else {
        None
    }
}

/// The header fields that the parser reports of `text` when read in the
/// given direction.
pub open spec fn reported_fields(text: Seq<char>, is_outgoing: bool) -> Seq<(Seq<char>, Seq<u8>)> {
    if is_outgoing {
        request_head(encode_utf8(text), MAX_HEADERS).fields
    } else {
        response_head(encode_utf8(text), MAX_HEADERS).fields
    }
}

/// The message that `text` stands for when read in the given direction:
/// a request where it is outgoing, a response where it is not.
pub open spec fn http_message(text: Seq<char>, is_outgoing: bool) -> Option<HttpMessage> {
    if text.len() == 0 {
        None
    } else if is_outgoing {
        request_of(request_head(encode_utf8(text), MAX_HEADERS))
    } else {
        response_of(response_head(encode_utf8(text), MAX_HEADERS))
    }
}

/// Every field that has a name is a key of the header map.
pub proof fn lemma_headers_hold_field(fields: Seq<(Seq<char>, Seq<u8>)>, i: int)
    requires
        0 <= i < fields.len(),
        fields[i].0.len() > 0,
    ensures
        headers_of(fields).contains_key(fields[i].0),
    decreases fields.len(),
{
    if i < fields.len() - 1 {
        let earlier = fields.drop_last();
        assert(earlier[i] == fields[i]);
        lemma_headers_hold_field(earlier, i);
    }
}

/// Tells whether `name` is `host` in any case of its letters.
pub fn is_host_name(name: &str) -> (r: bool)
    ensures
        r == same_ignoring_case(name@, "host"@),
{
    proof {
        reveal_strlit("host");
    }
    let chars = chars_of(name);
    if chars.len() != 4 {
        return false;
    }
    (chars[0] == 'h' || chars[0] == 'H') && (chars[1] == 'o' || chars[1] == 'O') && (chars[2] == 's'
        || chars[2] == 'S') && (chars[3] == 't' || chars[3] == 'T')
}

/// Builds the header map that `fields` write down.
pub fn header_map(fields: &Vec<(String, Vec<u8>)>) -> (headers: NameMap<String>)
    ensures
        header_texts(headers@) == headers_of(field_views(fields@)),
        headers.names() == header_names(field_views(fields@)),
{
    let ghost all = field_views(fields@);
    let mut headers: NameMap<String> = NameMap::new();
    let mut i: usize = 0;
    assert(all.take(0) =~= Seq::<(Seq<char>, Seq<u8>)>::empty());
    assert(header_texts(headers@) =~= Map::<Seq<char>, Seq<char>>::empty());
    while i < fields.len()
        invariant
            i <= fields.len(),
            all == field_views(fields@),
            header_texts(headers@) == headers_of(all.take(i as int)),
            headers.names() == header_names(all.take(i as int)),
        decreases fields.len() - i,
    {
        proof {
            let longer = all.take(i + 1);
            assert(longer.drop_last() =~= all.take(i as int));
            assert(longer.last() == (fields@[i as int].0@, fields@[i as int].1@));
        }
        if !fields[i].0.as_str().is_empty() {
            let name = fields[i].0.clone();
            let value = lossy_text(fields[i].1.as_slice());
            assert(value@ == value_text(fields@[i as int].1@));
            let ghost before = headers@;
            assert(before.contains_key(name@) <==> header_texts(before).contains_key(name@));
            headers.insert(name, value);
            assert(header_texts(before.insert(name@, value)) =~= header_texts(before).insert(
                name@,
                value@,
            ));
        }
        i += 1;
    }
    assert(all.take(i as int) =~= all);
    headers
}

/// Finds the host that the request with header fields `fields` names.
fn host_name(fields: &Vec<(String, Vec<u8>)>, headers: &NameMap<String>) -> (host: String)
    requires
        header_texts(headers@) == headers_of(field_views(fields@)),
    ensures
        host@ == host_of(field_views(fields@)),
{
    let ghost all = field_views(fields@);
    let ghost texts = header_texts(headers@);
    assert(forall|name: Seq<char>| texts.contains_key(name) <==> headers@.contains_key(name));
    match headers.get("Host") {
        Some(value) => {
            assert(texts["Host"@] == value@);
            return value.clone();
        },
        None => {},
    }
    match headers.get("host") {
        Some(value) => {
            assert(texts["host"@] == value@);
            return value.clone();
        },
        None => {},
    }
    let mut i: usize = 0;
    while i < fields.len()
        invariant
            i <= fields.len(),
            all == field_views(fields@),
            texts == header_texts(headers@),
            texts == headers_of(all),
            !headers@.contains_key("Host"@),
            !headers@.contains_key("host"@),
            forall|j: int| 0 <= j < i ==> !host_field_test()(#[trigger] all[j]),
        decreases fields.len() - i,
    {
        assert(all[i as int] == (fields@[i as int].0@, fields@[i as int].1@));
        if is_host_name(fields[i].0.as_str()) {
            proof {
                reveal_strlit("host");
                lemma_first_index_is(all, host_field_test(), i as int);
                lemma_headers_hold_field(all, i as int);
            }
            match headers.get(fields[i].0.as_str()) {
                Some(value) => {
                    assert(texts[all[i as int].0] == value@);
                    return value.clone();
                },
                None => {
                    // A field that has a name is a key, so this is never reached.
                    assert(headers@.contains_key(all[i as int].0));
                },
            }
        }
        i += 1;
    }
    proof {
        lemma_first_index_none(all, host_field_test());
    }
    String::from_str("unknown")
}

/// Makes the request that a parser's report stands for. A report that is
/// not complete, or lacks method or path, stands for none.
pub fn request_from_head(head: RequestHead) -> (message: Option<HttpRequest>)
    ensures
        match message {
            Some(m) => request_of(head@) == Some(m@) && m.header_order() == header_names(
                head@.fields,
            ),
            None => request_of(head@) is None,
        },
{
    match head.status {
        HeadStatus::Complete => {},
        _ => {
            return None;
        },
    }
    let ghost view = head@;
    let fields = head.fields;
    let method = match head.method {
        Some(method) => method,
        None => {
            return None;
        },
    };
    let path = match head.path {
        Some(path) => path,
        None => {
            return None;
        },
    };
    let headers = header_map(&fields);
    let url = if starts_with(path.as_str(), "http") {
        path
    } else {
        let host = host_name(&fields, &headers);
        String::from_str("http://").concat(host.as_str()).concat(path.as_str())
    };
    assert(url@ == absolute_url(view.path->0, host_of(view.fields)));
    Some(HttpRequest::Request { method, url, headers, body: None })
}

/// Makes the response that a parser's report stands for. A report that is
/// not complete, or lacks a code, stands for none.
pub fn response_from_head(head: ResponseHead) -> (message: Option<HttpRequest>)
    ensures
        match message {
            Some(m) => response_of(head@) == Some(m@) && m.header_order() == header_names(
                head@.fields,
            ),
            None => response_of(head@) is None,
        },
{
    match head.status {
        HeadStatus::Complete => {},
        _ => {
            return None;
        },
    }
    let code = match head.code {
        Some(code) => code,
        None => {
            return None;
        },
    };
    let mut status = decimal(code as u64);
    status.append(" ");
    match &head.reason {
        Some(phrase) => {
            status.append(phrase.as_str());
        },
        None => {
            status.append("Unknown");
        },
    }
    let headers = header_map(&head.fields);
    Some(HttpRequest::Response { status, headers, body: None })
}

/// Parses `data` as an HTTP request.
pub fn parse_http_request(data: &str) -> (message: Option<HttpRequest>)
    ensures
        match message {
            Some(m) => request_of(request_head(encode_utf8(data@), MAX_HEADERS)) == Some(m@)
                && m.header_order() == header_names(
                request_head(encode_utf8(data@), MAX_HEADERS).fields,
            ),
            None => request_of(request_head(encode_utf8(data@), MAX_HEADERS)) is None,
        },
{
    request_from_head(parse_request_head(data.as_bytes(), MAX_HEADERS))
}

/// Parses `data` as an HTTP response.
pub fn parse_http_response(data: &str) -> (message: Option<HttpRequest>)
    ensures
        match message {
            Some(m) => response_of(response_head(encode_utf8(data@), MAX_HEADERS)) == Some(m@)
                && m.header_order() == header_names(
                response_head(encode_utf8(data@), MAX_HEADERS).fields,
            ),
            None => response_of(response_head(encode_utf8(data@), MAX_HEADERS)) is None,
        },
{
    response_from_head(parse_response_head(data.as_bytes(), MAX_HEADERS))
}

/// Parses `data` as an HTTP message. The direction is the caller's to
/// know: outgoing data is read as a request, incoming data as a response.
/// Data that is not one complete, well-formed head gives `None`.
pub fn parse_http_data(data: &str, is_outgoing: bool) -> (message: Option<HttpRequest>)
    ensures
        match message {
            Some(m) => http_message(data@, is_outgoing) == Some(m@) && m.header_order()
                == header_names(reported_fields(data@, is_outgoing)),
            None => http_message(data@, is_outgoing) is None,
        },
{
    if data.is_empty() {
        return None;
    }
    if is_outgoing {
        parse_http_request(data)
    } else {
        parse_http_response(data)
    }
}

/// Text whose head the parser does not report complete stands for no
/// message, in either direction and however often it is read.
pub proof fn lemma_incomplete_head_is_no_message(text: Seq<char>, is_outgoing: bool)
    requires
        is_outgoing ==> request_head(encode_utf8(text), MAX_HEADERS).status
            != HeadStatus::Complete,
        !is_outgoing ==> response_head(encode_utf8(text), MAX_HEADERS).status
            != HeadStatus::Complete,
    ensures
        http_message(text, is_outgoing) is None,
{
}

/// A message never carries a body.
pub proof fn lemma_messages_have_no_body(text: Seq<char>, is_outgoing: bool)
    ensures
        match http_message(text, is_outgoing) {
            Some(HttpMessage::Request { body, .. }) => body is None,
            Some(HttpMessage::Response { body, .. }) => body is None,
            None => true,
        },
{
}

} // verus!

use httptrace::http_parser::HttpRequest;
use httptrace::packet::{extract_http_from_packet, is_http_like, process_packet, MIN_PACKET_LEN};

#[test]
fn short_frames_hold_nothing() {
    assert_eq!(MIN_PACKET_LEN, 20);
    assert_eq!(extract_http_from_packet(b"GET / HTTP/1.1\r\n\r\n"), None);
    assert_eq!(extract_http_from_packet(b""), None);
    let nineteen = b"GET /abcd HTTP/1.1\n";
    assert_eq!(nineteen.len(), 19);
    assert_eq!(extract_http_from_packet(nineteen), None);
    let twenty = b"GET /abcde HTTP/1.1\n";
    assert_eq!(twenty.len(), 20);
    assert_eq!(extract_http_from_packet(twenty), Some("GET /abcde HTTP/1.1\n".to_string()));
}

#[test]
fn frames_that_are_not_text_hold_nothing() {
    let mut frame = vec![0xffu8, 0xfe, 0x00, 0x45];
    frame.extend_from_slice(b"GET /index.html HTTP/1.1\r\nHost: example.com\r\n\r\n");
    assert_eq!(extract_http_from_packet(&frame), None);
    assert!(process_packet(&frame).is_none());
}

#[test]
fn text_is_told_by_marker_or_method() {
    assert!(is_http_like("xx HTTP/1.1"));
    assert!(is_http_like("GET /"));
    assert!(is_http_like("POST /"));
    assert!(is_http_like("PUT /"));
    assert!(is_http_like("DELETE /"));
    assert!(!is_http_like("GET"));
    assert!(!is_http_like(" GET /"));
    assert!(!is_http_like("HEAD / http/1.1"));
    assert!(!is_http_like("PATCH /x"));
    assert!(!is_http_like(""));
    assert_eq!(
        extract_http_from_packet(b"DELETE /things/17 and more"),
        Some("DELETE /things/17 and more".to_string())
    );
    assert_eq!(extract_http_from_packet(b"nothing of interest in here"), None);
}

#[test]
fn leading_bytes_stay_in_the_text() {
    let frame = b"\x01\x02\x03\x04GET /index.html HTTP/1.1\r\nHost: example.com\r\n\r\n";
    let text = extract_http_from_packet(frame).unwrap();
    assert!(text.starts_with('\u{1}'));
    assert!(process_packet(frame).is_none());
}

#[test]
fn a_frame_of_pure_http_is_read_as_a_request() {
    match process_packet(b"GET /index.html HTTP/1.1\r\nHost: example.com\r\n\r\n") {
        Some(HttpRequest::Request { method, url, .. }) => {
            assert_eq!(method, "GET");
            assert_eq!(url, "http://example.com/index.html");
        }
        other => panic!("expected a request, got {:?}", other),
    }
    assert!(process_packet(b"HTTP/1.1 200 OK\r\nContent-Type: text/html\r\n\r\n").is_none());
}

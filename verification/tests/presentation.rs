use httptrace::capture::pcap::{CaptureError, NetworkDevice};
use httptrace::capture::routing_table::CommandOutcome;
use httptrace::capture::InterfaceDetector;
use httptrace::http_parser::parse_http_data;
use httptrace::launch::command_words;
use httptrace::name_map::NameMap;
use httptrace::report::{activity_listing, device_line_of, http_request_lines, list_interfaces};

fn device(name: &str, description: Option<&str>) -> NetworkDevice {
    NetworkDevice { name: name.to_string(), description: description.map(String::from) }
}

#[test]
fn a_device_line_carries_tags_and_description() {
    let active = vec!["en0".to_string(), "en1".to_string()];
    let default = Some("en0".to_string());
    assert_eq!(
        device_line_of(&device("en0", Some("Ethernet")), &default, &active),
        "  en0 [default route, active] - Ethernet"
    );
    assert_eq!(device_line_of(&device("en1", None), &default, &active), "  en1 [active] - No description");
    assert_eq!(
        device_line_of(&device("en0", None), &default, &Vec::new()),
        "  en0 [default route] - No description"
    );
    assert_eq!(device_line_of(&device("lo0", Some("")), &None, &active), "  lo0 - ");
}

#[test]
fn idle_interfaces_are_left_out_of_the_counters() {
    let mut activity: NameMap<u64> = NameMap::new();
    activity.insert("lo0".to_string(), 0);
    activity.insert("en0".to_string(), 600000);
    activity.insert("en1".to_string(), 1);
    activity.insert("lo0".to_string(), 0);
    assert_eq!(activity_listing(&activity), vec!["  en0: 600000 bytes", "  en1: 1 bytes"]);
    assert_eq!(activity_listing(&NameMap::new()), Vec::<String>::new());
}

#[test]
fn the_listing_names_devices_then_counters() {
    let routing = CommandOutcome::Completed(
        "Destination Gateway Flags Netif\ndefault gw UG en0\n10.0.0.0/8 gw U utun3\n127.0.0.1 gw UH lo0\n"
            .to_string(),
    );
    let statistics = CommandOutcome::Completed(
        "Name Mtu Network Address Ipkts Ierrs Ibytes Opkts\nen0 1500 n a 5 0 42 7\nlo0 1500 n a 5 0 0 7\n"
            .to_string(),
    );
    let activity = InterfaceDetector::get_interface_activity(&statistics);
    let listed = vec![device("lo0", Some("Loopback")), device("en0", None), device("utun3", None)];
    let (lines, outcome) = list_interfaces(Ok(listed), &routing, &activity);
    assert!(outcome.is_ok());
    assert_eq!(
        lines,
        vec![
            "Available network interfaces:",
            "  lo0 - Loopback",
            "  en0 [default route, active] - No description",
            "  utun3 [active] - No description",
            "",
            "Interface activity (bytes transmitted):",
            "  en0: 42 bytes",
        ]
    );
    let (lines, outcome) =
        list_interfaces(Ok(vec![device("en0", None)]), &CommandOutcome::Failed, &NameMap::new());
    assert!(outcome.is_ok());
    assert_eq!(
        lines,
        vec![
            "Available network interfaces:",
            "  en0 - No description",
            "",
            "Interface activity (bytes transmitted):",
        ]
    );
}

#[test]
fn a_listing_without_devices_is_its_heading_and_an_error() {
    let routing = CommandOutcome::Failed;
    let activity: NameMap<u64> = NameMap::new();
    let (lines, outcome) = list_interfaces(Ok(Vec::new()), &routing, &activity);
    assert_eq!(lines, vec!["Available network interfaces:"]);
    assert!(matches!(outcome, Err(CaptureError::NoDevices)));
    let (lines, outcome) = list_interfaces(Err("x".to_string()), &routing, &activity);
    assert_eq!(lines, vec!["Available network interfaces:"]);
    match outcome {
        Err(CaptureError::DeviceList(m)) => assert_eq!(m, "x"),
        other => panic!("unexpected {:?}", other),
    }
}

#[test]
fn a_message_is_presented_with_its_headers() {
    let request = parse_http_data(
        "GET /index.html HTTP/1.1\r\nHost: example.com\r\nAccept: */*\r\n\r\n",
        true,
    )
    .unwrap();
    assert_eq!(
        http_request_lines(&request),
        vec!["🚀 GET http://example.com/index.html", "   Host: example.com", "   Accept: */*", ""]
    );
    let response =
        parse_http_data("HTTP/1.1 200 OK\r\nContent-Type: text/html\r\n\r\n", false).unwrap();
    assert_eq!(
        http_request_lines(&response),
        vec!["📥 HTTP/200 OK", "   Content-Type: text/html", ""]
    );
}

#[test]
fn a_command_needs_a_word() {
    assert_eq!(
        command_words("curl  -s http://example.com "),
        Ok(vec!["curl".to_string(), "-s".to_string(), "http://example.com".to_string()])
    );
    assert_eq!(command_words("ls"), Ok(vec!["ls".to_string()]));
    assert_eq!(command_words(""), Err("Empty command".to_string()));
    assert_eq!(command_words(" \t "), Err("Empty command".to_string()));
}

#[test]
fn a_name_map_keeps_the_last_value_and_the_first_place() {
    let mut map: NameMap<u64> = NameMap::new();
    assert!(map.is_empty());
    assert_eq!(map.len(), 0);
    map.insert("b".to_string(), 1);
    map.insert("a".to_string(), 2);
    map.insert("b".to_string(), 3);
    map.insert("B".to_string(), 4);
    assert!(!map.is_empty());
    assert_eq!(map.len(), 3);
    assert_eq!(map.get("b"), Some(&3));
    assert_eq!(map.get("a"), Some(&2));
    assert_eq!(map.get("B"), Some(&4));
    assert_eq!(map.get("c"), None);
    assert!(map.contains_key("a"));
    assert!(!map.contains_key(""));
    assert_eq!(
        map.entries(),
        &vec![("b".to_string(), 3), ("a".to_string(), 2), ("B".to_string(), 4)]
    );
}

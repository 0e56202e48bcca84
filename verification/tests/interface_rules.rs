use httptrace::capture::interface_detection::InterfaceDetectionError;
use httptrace::capture::routing_table::{CommandOutcome, RouteInfo};
use httptrace::capture::InterfaceDetector;

fn netstat_output() -> String {
    [
        "Routing tables",
        "",
        "Internet:",
        "Destination        Gateway            Flags           Netif Expire",
        "default            192.168.1.1        UGScg             en0       ",
        "127                127.0.0.1          UCS               lo0       ",
        "127.0.0.1          127.0.0.1          UH                lo0       ",
        "169.254            link#6             UCS               en0      !",
        "192.168.1          link#6             UCS               en0      !",
        "192.168.1.1/32     link#6             UCS               en0      !",
        "10.8.0.0/24        10.8.0.1           UGSc            utun3       ",
        "224.0.0/4          link#6             UmCS              en0      !",
        "short line",
        "",
    ]
    .join("\n")
}

fn completed(text: &str) -> CommandOutcome {
    CommandOutcome::Completed(text.to_string())
}

fn table(rows: &[(&str, &str)]) -> String {
    let mut text = String::from("Destination Gateway Flags Netif\n");
    for (interface, destination) in rows {
        text.push_str(&format!("{} gw UH {}\n", destination, interface));
    }
    text
}

#[test]
fn test_get_default_interface() {
    match InterfaceDetector::get_default_interface(&completed(&netstat_output())) {
        Ok(interface) => {
            assert!(!interface.is_empty());
            println!("Default interface: {}", interface);
        }
        Err(e) => {
            println!("Could not detect default interface: {}", e.message());
        }
    }
}

#[test]
fn test_get_active_interfaces() {
    match InterfaceDetector::get_active_interfaces(&completed(&netstat_output())) {
        Ok(interfaces) => {
            println!("Active interfaces: {:?}", interfaces);
        }
        Err(e) => {
            println!("Could not get active interfaces: {}", e.message());
        }
    }
}

#[test]
fn routing_table_rows_are_read_by_column() {
    let routes: Vec<RouteInfo> =
        InterfaceDetector::parse_macos_routing_table(&netstat_output()).unwrap();
    assert_eq!(routes.len(), 8);
    assert_eq!(routes[0].destination, "default");
    assert_eq!(routes[0].gateway, "192.168.1.1");
    assert_eq!(routes[0].flags, "UGScg");
    assert_eq!(routes[0].interface, "en0");
    assert_eq!(routes[6].destination, "10.8.0.0/24");
    assert_eq!(routes[6].interface, "utun3");
    for route in &routes {
        assert!(!route.destination.is_empty());
        assert!(!route.interface.is_empty());
    }
}

#[test]
fn lines_before_the_header_are_ignored() {
    let text = "default gw UG en9\nDestination Gateway Flags Netif\ndefault gw UG en0\n";
    let routes = InterfaceDetector::parse_macos_routing_table(text).unwrap();
    assert_eq!(routes.len(), 1);
    assert_eq!(routes[0].interface, "en0");
}

#[test]
fn a_repeated_header_is_no_row() {
    let text = "Destination Gateway Flags Netif\n1.2.3.4 gw UG en0\n  Destination Gateway Flags Netif\n5.6.7.8 gw UG en1\n";
    let routes = InterfaceDetector::parse_macos_routing_table(text).unwrap();
    assert_eq!(routes.len(), 2);
    assert_eq!(routes[1].destination, "5.6.7.8");
}

#[test]
fn a_table_without_rows_is_a_parse_error() {
    for text in ["", "no header here\n1 2 3 4\n", "Destination Gateway Flags Netif\n", "Destination Gateway Flags Netif\na b c\n\n"] {
        match InterfaceDetector::parse_macos_routing_table(text) {
            Err(InterfaceDetectionError::RoutingTableParse) => {}
            other => panic!("expected a parse error, got {:?}", other),
        }
    }
}

#[test]
fn a_command_that_did_not_succeed_is_reported() {
    match InterfaceDetector::get_routing_table(&CommandOutcome::NotRun("No such file".to_string())) {
        Err(InterfaceDetectionError::CommandFailed(m)) => assert_eq!(m, "netstat failed: No such file"),
        other => panic!("unexpected {:?}", other),
    }
    match InterfaceDetector::get_default_interface(&CommandOutcome::Failed) {
        Err(InterfaceDetectionError::CommandFailed(m)) => assert_eq!(m, "netstat command failed"),
        other => panic!("unexpected {:?}", other),
    }
    assert!(matches!(
        InterfaceDetector::get_active_interfaces(&CommandOutcome::Failed),
        Err(InterfaceDetectionError::CommandFailed(_))
    ));
    assert!(matches!(
        InterfaceDetector::predict_interface_for_destination(&CommandOutcome::Failed, "1.2.3.4"),
        Err(InterfaceDetectionError::CommandFailed(_))
    ));
}

#[test]
fn the_first_default_route_wins() {
    let text = table(&[("en5", "10.0.0.0/8"), ("en1", "default"), ("en2", "default")]);
    assert_eq!(InterfaceDetector::get_default_interface(&completed(&text)).unwrap(), "en1");
    let text = table(&[("en3", "0.0.0.0"), ("en1", "default")]);
    assert_eq!(InterfaceDetector::get_default_interface(&completed(&text)).unwrap(), "en3");
    let text = table(&[("en4", "0.0.0.0/0"), ("en1", "default")]);
    assert_eq!(InterfaceDetector::get_default_interface(&completed(&text)).unwrap(), "en4");
}

#[test]
fn no_default_route_is_an_error() {
    let text = table(&[("en0", "192.168.1.0/24"), ("lo0", "127.0.0.1"), ("en1", "defaults")]);
    match InterfaceDetector::get_default_interface(&completed(&text)) {
        Err(InterfaceDetectionError::NoDefaultRoute) => {}
        other => panic!("unexpected {:?}", other),
    }
}

#[test]
fn loopback_and_local_routes_are_not_active() {
    let text = table(&[("lo0", "127.0.0.1"), ("en0", "192.168.1.0/24")]);
    assert_eq!(InterfaceDetector::get_active_interfaces(&completed(&text)).unwrap(), vec!["en0"]);
}

#[test]
fn active_interfaces_are_listed_once() {
    let text = table(&[
        ("en0", "default"),
        ("en1", "127.0.0.1"),
        ("utun3", "10.8.0.0/24"),
        ("en0", "192.168.1.0/24"),
        ("wlo1", "10.1.0.0/16"),
        ("en2", "::1"),
        ("en1", "172.16.0.0/12"),
    ]);
    let active = InterfaceDetector::get_active_interfaces(&completed(&text)).unwrap();
    assert_eq!(active, vec!["en0", "utun3", "en1"]);
    assert_eq!(InterfaceDetector::get_active_interfaces(&completed(&netstat_output())).unwrap(), vec!["en0", "utun3"]);
}

#[test]
fn a_table_of_loopback_routes_has_no_active_interface() {
    let text = table(&[("lo0", "127.0.0.1"), ("lo0", "10.0.0.1")]);
    assert_eq!(
        InterfaceDetector::get_active_interfaces(&completed(&text)).unwrap(),
        Vec::<String>::new()
    );
}

#[test]
fn ip_literals_hold_a_digit_and_a_dot() {
    assert!(InterfaceDetector::is_ip_address("192.168.1.10"));
    assert!(InterfaceDetector::is_ip_address("host1.example"));
    assert!(!InterfaceDetector::is_ip_address("example.com"));
    assert!(!InterfaceDetector::is_ip_address("12345"));
    assert!(!InterfaceDetector::is_ip_address(""));
}

#[test]
fn routes_match_by_name_or_truncated_network() {
    assert!(!InterfaceDetector::matches_route("anything", "default"));
    assert!(!InterfaceDetector::matches_route("8.8.8.8", "default"));
    assert!(InterfaceDetector::matches_route("default", "default"));
    assert!(InterfaceDetector::matches_route("10.0.0.1", "10.0.0.1"));
    assert!(InterfaceDetector::matches_route("192.168.1.77", "192.168.1.0/24"));
    assert!(InterfaceDetector::matches_route("192.168.200.1", "192.168.1.0/24"));
    assert!(!InterfaceDetector::matches_route("192.169.1.77", "192.168.1.0/24"));
    assert!(InterfaceDetector::matches_route("8.8.8.8", "10/8"));
    assert!(InterfaceDetector::matches_route("8.8.8.8", "/8"));
    assert!(!InterfaceDetector::matches_route("10.0.0.1", "10.0.0.2"));
    assert!(!InterfaceDetector::matches_route("10.0.0.1", "10.0.0"));
}

#[test]
fn an_exact_route_is_found_behind_the_default_route() {
    let outcome = completed(
        "Destination Gateway Flags Netif\ndefault 192.168.1.1 UGScg en0\n192.168.1.5 link#6 UHS en1\n",
    );
    assert_eq!(
        InterfaceDetector::predict_interface_for_destination(&outcome, "192.168.1.5").unwrap(),
        "en1"
    );
    assert_eq!(
        InterfaceDetector::predict_interface_for_destination(&outcome, "192.168.1.6").unwrap(),
        "en0"
    );
    let outcome = completed(
        "Destination Gateway Flags Netif\ndefault 192.168.1.1 UGScg en0\n10.8.0.0/24 10.8.0.1 UGSc utun3\n",
    );
    assert_eq!(
        InterfaceDetector::predict_interface_for_destination(&outcome, "10.8.0.77").unwrap(),
        "utun3"
    );
    assert_eq!(
        InterfaceDetector::predict_interface_for_destination(&outcome, "example.com").unwrap(),
        "en0"
    );
}

#[test]
fn prediction_prefers_a_matching_route() {
    let text = table(&[("utun3", "10.8.0.0/24"), ("en0", "default"), ("en7", "172.16.0.9")]);
    let outcome = completed(&text);
    assert_eq!(InterfaceDetector::predict_interface_for_destination(&outcome, "10.8.3.3").unwrap(), "utun3");
    assert_eq!(InterfaceDetector::predict_interface_for_destination(&outcome, "8.8.8.8").unwrap(), "en0");
    assert_eq!(InterfaceDetector::predict_interface_for_destination(&outcome, "example.com").unwrap(), "en0");
    let text = table(&[("utun3", "10.8.0.0/24"), ("en7", "172.16.0.9")]);
    let outcome = completed(&text);
    assert_eq!(InterfaceDetector::predict_interface_for_destination(&outcome, "172.16.0.9").unwrap(), "en7");
    assert!(matches!(
        InterfaceDetector::predict_interface_for_destination(&outcome, "8.8.8.8"),
        Err(InterfaceDetectionError::NoDefaultRoute)
    ));
    assert!(matches!(
        InterfaceDetector::predict_interface_for_destination(&outcome, "example"),
        Err(InterfaceDetectionError::NoDefaultRoute)
    ));
}

#[test]
fn interface_statistics_give_bytes_sent() {
    let printed = [
        "Name  Mtu   Network       Address            Ipkts Ierrs     Ibytes    Opkts Oerrs     Obytes  Coll",
        "lo0   16384 <Link#1>                        1000     0     200000     1000     0     200000     0",
        "en0   1500  <Link#6>    aa:bb:cc:dd:ee:ff  5000     0    7000000     4000     0     600000     0",
        "en0   1500  192.168.1     192.168.1.10       5000     -    7000001     4000     -     600000     -",
        "gif0* 1280  <Link#2>                            0     0          0        0     0          0     0",
        "too few columns",
    ]
    .join("\n");
    let activity = InterfaceDetector::get_interface_activity(&completed(&printed));
    assert_eq!(activity.len(), 3);
    assert_eq!(activity.get("en0"), Some(&7000001));
    assert_eq!(activity.get("lo0"), Some(&1000));
    assert_eq!(activity.get("gif0*"), Some(&0));
    assert_eq!(activity.get("Name"), None);
    let names: Vec<&str> = activity.entries().iter().map(|e| e.0.as_str()).collect();
    assert_eq!(names, vec!["lo0", "en0", "gif0*"]);
}

#[test]
fn statistics_of_a_failed_command_are_empty() {
    assert!(InterfaceDetector::get_interface_activity(&CommandOutcome::Failed).is_empty());
    assert!(InterfaceDetector::get_interface_activity(&CommandOutcome::NotRun("x".to_string())).is_empty());
    assert!(InterfaceDetector::get_interface_activity(&completed("")).is_empty());
}

#[test]
fn a_statistics_line_needs_eight_columns_and_a_number() {
    assert_eq!(
        InterfaceDetector::parse_interface_stats_line("en0 1500 net addr 5 0 42 7"),
        Some(("en0".to_string(), 42))
    );
    assert_eq!(InterfaceDetector::parse_interface_stats_line("en0 1500 net addr 5 0 42"), None);
    assert_eq!(InterfaceDetector::parse_interface_stats_line("en0 1500 net addr 5 0 x 7"), None);
    assert_eq!(InterfaceDetector::parse_interface_stats_line(""), None);
}

#[test]
fn errors_describe_themselves() {
    assert_eq!(
        InterfaceDetectionError::CommandFailed("boom".to_string()).message(),
        "Failed to execute command: boom"
    );
    assert_eq!(InterfaceDetectionError::RoutingTableParse.message(), "Failed to parse routing table");
    assert_eq!(InterfaceDetectionError::NoDefaultRoute.message(), "No default route found");
    assert_eq!(
        InterfaceDetectionError::InterfaceNotFound("en9".to_string()).message(),
        "Interface not found: en9"
    );
}

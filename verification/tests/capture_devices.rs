use httptrace::capture::pcap::{
    first_listed, first_named, first_outward, keep_capturing, CaptureError, CaptureState,
    CaptureStats, LoopAction, NetworkDevice, OpenOutcome, PcapCapture, ReadEvent,
    READ_TIMEOUT_MS, SNAPSHOT_LENGTH,
};
use httptrace::capture::routing_table::CommandOutcome;

fn device(name: &str) -> NetworkDevice {
    NetworkDevice { name: name.to_string(), description: None }
}

fn devices(names: &[&str]) -> Result<Vec<NetworkDevice>, String> {
    Ok(names.iter().map(|n| device(n)).collect())
}

fn routing(rows: &[(&str, &str)]) -> CommandOutcome {
    let mut text = String::from("Destination Gateway Flags Netif\n");
    for (interface, destination) in rows {
        text.push_str(&format!("{} gw UH {}\n", destination, interface));
    }
    CommandOutcome::Completed(text)
}

fn best(names: &[&str], routing: &CommandOutcome) -> String {
    PcapCapture::find_best_device(devices(names), routing).unwrap().name
}

#[test]
fn test_list_devices() {
    let devices = PcapCapture::list_devices(Ok(vec![device("en0"), device("lo0")]));
    match devices {
        Ok(devs) => {
            assert!(!devs.is_empty(), "Should have at least one network device");
        }
        Err(CaptureError::NoDevices) => {
            println!("No network devices available for testing");
        }
        Err(e) => {
            panic!("Unexpected error: {}", e.message());
        }
    }
}

#[test]
fn an_empty_or_failed_enumeration_is_an_error() {
    assert!(matches!(PcapCapture::list_devices(Ok(Vec::new())), Err(CaptureError::NoDevices)));
    match PcapCapture::list_devices(Err("permission denied".to_string())) {
        Err(CaptureError::DeviceList(m)) => assert_eq!(m, "permission denied"),
        other => panic!("unexpected {:?}", other),
    }
    let listed = PcapCapture::list_devices(devices(&["a", "b", "c"])).unwrap();
    let names: Vec<&str> = listed.iter().map(|d| d.name.as_str()).collect();
    assert_eq!(names, vec!["a", "b", "c"]);
}

#[test]
fn the_default_route_device_comes_first() {
    let table = routing(&[("en1", "10.0.0.0/8"), ("en0", "default")]);
    assert_eq!(best(&["lo0", "en1", "en0"], &table), "en0");
}

#[test]
fn without_the_default_device_an_active_one_is_taken() {
    let table = routing(&[("en7", "default"), ("en1", "10.0.0.0/8"), ("en2", "10.1.0.0/16")]);
    assert_eq!(best(&["lo0", "en3", "en2", "en1"], &table), "en2");
    let table = routing(&[("en1", "10.0.0.0/8")]);
    assert_eq!(best(&["lo0", "en3", "en1"], &table), "en1");
}

#[test]
fn without_an_active_device_a_non_loopback_is_taken() {
    let table = routing(&[("en7", "default"), ("en8", "10.0.0.0/8")]);
    assert_eq!(best(&["lo0", "en3", "en4"], &table), "en3");
    assert_eq!(best(&["lo0", "en3", "en4"], &CommandOutcome::Failed), "en3");
    assert_eq!(best(&["lo0", "en3"], &CommandOutcome::NotRun("x".to_string())), "en3");
    assert_eq!(best(&["lo0", "en3"], &CommandOutcome::Completed(String::new())), "en3");
}

#[test]
fn with_loopbacks_only_the_first_device_is_taken() {
    let table = routing(&[("en7", "default")]);
    assert_eq!(best(&["lo1", "lo0", "loopback2"], &table), "lo1");
    assert_eq!(best(&["lo0"], &CommandOutcome::Failed), "lo0");
}

#[test]
fn choosing_fails_only_without_devices() {
    let table = routing(&[("en0", "default")]);
    assert!(matches!(
        PcapCapture::find_best_device(Ok(Vec::new()), &table),
        Err(CaptureError::NoDevices)
    ));
    assert!(matches!(
        PcapCapture::find_best_device(Err("nope".to_string()), &table),
        Err(CaptureError::DeviceList(_))
    ));
    for outcome in [CommandOutcome::Failed, CommandOutcome::Completed("garbage".to_string()), table] {
        assert!(PcapCapture::find_best_device(devices(&["x"]), &outcome).is_ok());
    }
}

#[test]
fn the_chosen_device_keeps_its_description() {
    let listed = vec![
        NetworkDevice { name: "lo0".to_string(), description: Some("Loopback".to_string()) },
        NetworkDevice { name: "en0".to_string(), description: Some("Ethernet".to_string()) },
    ];
    let chosen = PcapCapture::find_best_device(Ok(listed), &CommandOutcome::Failed).unwrap();
    assert_eq!(chosen.name, "en0");
    assert_eq!(chosen.description.as_deref(), Some("Ethernet"));
}

#[test]
fn devices_are_found_in_order() {
    let listed = devices(&["lo0", "en1", "en0", "en1"]).unwrap();
    assert_eq!(first_named(&listed, "en1"), Some(1));
    assert_eq!(first_named(&listed, "en"), None);
    assert_eq!(first_listed(&listed, &vec!["en0".to_string(), "en1".to_string()]), Some(1));
    assert_eq!(first_listed(&listed, &Vec::new()), None);
    assert_eq!(first_outward(&listed), Some(1));
    assert_eq!(first_outward(&devices(&["lo0", "hello"]).unwrap()), None);
}

#[test]
fn a_named_device_must_exist() {
    let table = routing(&[("en0", "default")]);
    let found = PcapCapture::resolve_device(Some("lo0"), devices(&["en0", "lo0"]), &table).unwrap();
    assert_eq!(found.name, "lo0");
    match PcapCapture::resolve_device(Some("en9"), devices(&["en0", "lo0"]), &table) {
        Err(CaptureError::DeviceNotFound(name)) => assert_eq!(name, "en9"),
        other => panic!("unexpected {:?}", other),
    }
    assert!(matches!(
        PcapCapture::resolve_device(Some("en0"), Ok(Vec::new()), &table),
        Err(CaptureError::NoDevices)
    ));
    let found = PcapCapture::resolve_device(None, devices(&["lo0", "en0"]), &table).unwrap();
    assert_eq!(found.name, "en0");
}

#[test]
fn a_capture_is_opened_promiscuous_and_filtered() {
    let settings = PcapCapture::settings();
    assert!(settings.promiscuous);
    assert!(settings.immediate);
    assert_eq!(settings.snapshot_length, 65535);
    assert_eq!(settings.read_timeout_ms, 100);
    assert_eq!(settings.filter, "tcp");
    assert_eq!(SNAPSHOT_LENGTH, 65535);
    assert_eq!(READ_TIMEOUT_MS, 100);
}

#[test]
fn a_session_needs_an_open_device() {
    let session = PcapCapture::new(device("en0"), OpenOutcome::Opened).unwrap();
    assert_eq!(session.interface_name(), "en0");
    assert_eq!(session.state(), CaptureState::Idle);
    match PcapCapture::new(device("en0"), OpenOutcome::OpenFailed("no permission".to_string())) {
        Err(CaptureError::CaptureOpen(m)) => assert_eq!(m, "no permission"),
        other => panic!("unexpected {:?}", other),
    }
    match PcapCapture::new(device("en0"), OpenOutcome::ConfigFailed("bad filter".to_string())) {
        Err(CaptureError::CaptureConfig(m)) => assert_eq!(m, "bad filter"),
        other => panic!("unexpected {:?}", other),
    }
}

#[test]
fn the_read_cycle_goes_on_until_told_to_stop() {
    let mut session = PcapCapture::new(device("en0"), OpenOutcome::Opened).unwrap();
    assert!(matches!(session.handle_read(ReadEvent::Timeout), LoopAction::Finish));
    assert_eq!(session.state(), CaptureState::Idle);
    assert!(matches!(session.start_capture(), LoopAction::Read));
    assert_eq!(session.state(), CaptureState::Reading);
    assert!(matches!(session.handle_read(ReadEvent::Timeout), LoopAction::Read));
    assert!(matches!(session.handle_read(ReadEvent::Packet { keep_going: true }), LoopAction::Read));
    assert!(matches!(session.handle_read(ReadEvent::Timeout), LoopAction::Read));
    assert_eq!(session.state(), CaptureState::Reading);
    assert!(matches!(
        session.handle_read(ReadEvent::Packet { keep_going: false }),
        LoopAction::Finish
    ));
    assert_eq!(session.state(), CaptureState::Stopped);
    for _ in 0..3 {
        assert!(matches!(
            session.handle_read(ReadEvent::Packet { keep_going: true }),
            LoopAction::Finish
        ));
        assert!(matches!(session.handle_read(ReadEvent::Timeout), LoopAction::Finish));
        assert_eq!(session.state(), CaptureState::Stopped);
    }
    assert_eq!(session.interface_name(), "en0");
    assert!(matches!(session.start_capture(), LoopAction::Read));
    assert_eq!(session.state(), CaptureState::Reading);
}

#[test]
fn a_failed_read_ends_the_cycle_with_its_error() {
    let mut session = PcapCapture::new(device("en0"), OpenOutcome::Opened).unwrap();
    session.start_capture();
    match session.handle_read(ReadEvent::Failure("device gone".to_string())) {
        LoopAction::Abort(CaptureError::PacketCapture(m)) => assert_eq!(m, "device gone"),
        other => panic!("unexpected {:?}", other),
    }
    assert_eq!(session.state(), CaptureState::Failed);
    assert!(matches!(session.handle_read(ReadEvent::Timeout), LoopAction::Finish));
    assert_eq!(session.state(), CaptureState::Failed);
}

#[test]
fn the_handler_stops_on_a_cleared_flag_or_spent_time() {
    assert!(keep_capturing(true, 0, None));
    assert!(keep_capturing(true, u64::MAX, None));
    assert!(keep_capturing(true, 9, Some(10)));
    assert!(!keep_capturing(true, 10, Some(10)));
    assert!(!keep_capturing(true, 11, Some(10)));
    assert!(!keep_capturing(true, 0, Some(0)));
    assert!(!keep_capturing(false, 0, None));
    assert!(!keep_capturing(false, 0, Some(10)));
}

#[test]
fn counters_are_passed_on() {
    let session = PcapCapture::new(device("en0"), OpenOutcome::Opened).unwrap();
    let counters = CaptureStats { received: 10, dropped: 2, if_dropped: 1 };
    assert_eq!(session.stats(Ok(counters)).unwrap(), counters);
    match session.stats(Err("closed".to_string())) {
        Err(CaptureError::PacketCapture(m)) => assert_eq!(m, "closed"),
        other => panic!("unexpected {:?}", other),
    }
}

#[test]
fn capture_errors_describe_themselves() {
    assert_eq!(
        CaptureError::DeviceList("x".to_string()).message(),
        "Failed to list network devices: x"
    );
    assert_eq!(CaptureError::NoDevices.message(), "No network devices available");
    assert_eq!(CaptureError::DeviceNotFound("en9".to_string()).message(), "Device not found: en9");
    assert_eq!(
        CaptureError::CaptureOpen("x".to_string()).message(),
        "Failed to open capture device: x"
    );
    assert_eq!(
        CaptureError::CaptureConfig("x".to_string()).message(),
        "Failed to configure capture: x"
    );
    assert_eq!(CaptureError::PacketCapture("x".to_string()).message(), "Packet capture error: x");
}

//! The lines in which devices, traffic counters and HTTP messages are
//! presented. Writing them out is the caller's business.

use vstd::prelude::*;
use vstd::string::StringExecFns;
use crate::capture::interface_detection::{
    active_interfaces_of, default_interface_of, InterfaceDetector,
};
use crate::capture::pcap::{
    device_views, enumeration_view, listed_devices, CaptureError, CaptureFailure, Device,
    NetworkDevice, PcapCapture,
};
use crate::capture::routing_table::{CommandOutcome, Outcome};
use crate::http_parser::{header_texts, HttpMessage, HttpRequest};
use crate::name_map::{names_of, NameMap};
use crate::numeral::{decimal, decimal_text};
use crate::text::{holds_name, same_text, texts};

verus! {

/// The tags that follow a device's name.
pub open spec fn tag_text(is_default: bool, is_active: bool) -> Seq<char> {
    if is_default && is_active {
        " [default route, active]"@
    } else if is_default {
        " [default route]"@
    } else if is_active {
        " [active]"@
    } else {
        Seq::empty()
    }
}

/// The line that presents a device: its name, its tags, its description.
pub open spec fn device_line(
    device: Device,
    default_interface: Option<Seq<char>>,
    active: Seq<Seq<char>>,
) -> Seq<char> {
    "  "@ + device.name + tag_text(
        default_interface == Some(device.name),
        active.contains(device.name),
    ) + " - "@ + match device.description {
        Some(description) => description,
        None => "No description"@,
    }
}

/// The writing of a device's line, given the default interface and the
/// active ones.
pub open spec fn device_line_writer(
    default_interface: Option<Seq<char>>,
    active: Seq<Seq<char>>,
) -> spec_fn(Device) -> Seq<char> {
    |device: Device| device_line(device, default_interface, active)
}

/// The interface of the default route, where the routing query names one.
pub open spec fn known_default(routing: Outcome) -> Option<Seq<char>> {
    match default_interface_of(routing) {
        Ok(name) => Some(name),
        Err(_) => None,
    }
}

/// The active interfaces, where the routing query gives a table.
pub open spec fn known_active(routing: Outcome) -> Seq<Seq<char>> {
    match active_interfaces_of(routing) {
        Ok(names) => names,
        Err(_) => Seq::empty(),
    }
}

/// The lines that present `devices`, one for each, in order.
pub open spec fn device_lines(devices: Seq<Device>, routing: Outcome) -> Seq<Seq<char>> {
    devices.map_values(device_line_writer(known_default(routing), known_active(routing)))
}

/// The line that presents the count of bytes sent on an interface.
pub open spec fn activity_line(name: Seq<char>, bytes: u64) -> Seq<char> {
    "  "@ + name + ": "@ + decimal_text(bytes as nat) + " bytes"@
}

/// The test that an interface has sent anything.
pub open spec fn busy_test(counters: Map<Seq<char>, u64>) -> spec_fn(Seq<char>) -> bool {
    |name: Seq<char>| counters[name] > 0
}

/// The writing of an interface's counter line.
pub open spec fn activity_line_writer(counters: Map<Seq<char>, u64>) -> spec_fn(Seq<char>) -> Seq<
    char,
> {
    |name: Seq<char>| activity_line(name, counters[name])
}

/// The lines that present the counters: one for each interface that has
/// sent anything, in the order of `names`.
pub open spec fn activity_lines(names: Seq<Seq<char>>, counters: Map<Seq<char>, u64>) -> Seq<
    Seq<char>,
> {
    names.filter(busy_test(counters)).map_values(activity_line_writer(counters))
}

/// The whole listing of interfaces: a heading, the devices, an empty
/// line, a heading, the counters.
pub open spec fn interface_listing(
    devices: Seq<Device>,
    routing: Outcome,
    names: Seq<Seq<char>>,
    counters: Map<Seq<char>, u64>,
) -> Seq<Seq<char>> {
    seq!["Available network interfaces:"@] + device_lines(devices, routing) + seq![
        Seq::empty(),
        "Interface activity (bytes transmitted):"@,
    ] + activity_lines(names, counters)
}

/// The line that presents a header field.
pub open spec fn header_line(name: Seq<char>, value: Seq<char>) -> Seq<char> {
    "   "@ + name + ": "@ + value
}

/// The writing of a header field's line.
pub open spec fn header_line_writer(headers: Map<Seq<char>, Seq<char>>) -> spec_fn(
    Seq<char>,
) -> Seq<char> {
    |name: Seq<char>| header_line(name, headers[name])
}

/// The first line of a message's presentation: method and URL of a
/// request, the status of a response.
pub open spec fn start_line(message: HttpMessage) -> Seq<char> {
    match message {
        HttpMessage::Request { method, url, .. } => "🚀 "@ + method + " "@ + url,
        HttpMessage::Response { status, .. } => "📥 HTTP/"@ + status,
    }
}

/// The header fields of a message.
pub open spec fn headers_in(message: HttpMessage) -> Map<Seq<char>, Seq<char>> {
    match message {
        HttpMessage::Request { headers, .. } => headers,
        HttpMessage::Response { headers, .. } => headers,
    }
}

/// The lines that present a message: the start line, a line for each
/// header field in the order of `order`, and an empty line.
pub open spec fn message_lines(message: HttpMessage, order: Seq<Seq<char>>) -> Seq<Seq<char>> {
    seq![start_line(message)] + order.map_values(header_line_writer(headers_in(message))) + seq![
        Seq::empty(),
    ]
}

/// Writes the line that presents `device`.
pub fn device_line_of(
    device: &NetworkDevice,
    default_interface: &Option<String>,
    active: &Vec<String>,
) -> (line: String)
    ensures
        line@ == device_line(
            device@,
            match default_interface {
                Some(name) => Some(name@),
                None => None,
            },
            texts(active@),
        ),
{
    let is_default = match default_interface {
        Some(name) => same_text(name.as_str(), device.name.as_str()),
        None => false,
    };
    let is_active = holds_name(active, device.name.as_str());
    let mut line = String::from_str("  ");
    line.append(device.name.as_str());
    if is_default && is_active {
        line.append(" [default route, active]");
    } else if is_default {
        line.append(" [default route]");
    } else if is_active {
        line.append(" [active]");
    } else {
        assert(line@ + Seq::<char>::empty() =~= line@);
    }
    line.append(" - ");
    match &device.description {
        Some(description) => {
            line.append(description.as_str());
        },
        None => {
            line.append("No description");
        },
    }
    line
}

/// Writes the lines that present the counters in `activity`.
pub fn activity_listing(activity: &NameMap<u64>) -> (lines: Vec<String>)
    ensures
        texts(lines@) == activity_lines(activity.names(), activity@),
{
    let entries = activity.entries();
    let ghost names = activity.names();
    let ghost counters = activity@;
    let mut lines: Vec<String> = Vec::new();
    let mut i: usize = 0;
    proof {
        assert(names.take(0) =~= Seq::<Seq<char>>::empty());
        names.take(0).lemma_filter_len(busy_test(counters));
        assert(texts(lines@) =~= activity_lines(names.take(0), counters));
    }
    while i < entries.len()
        invariant
            i <= entries.len(),
            names == names_of(entries@),
            forall|k: int|
                0 <= k < entries@.len() ==> counters.contains_key((#[trigger] entries@[k]).0@)
                    && counters[entries@[k].0@] == entries@[k].1,
            texts(lines@) == activity_lines(names.take(i as int), counters),
        decreases entries.len() - i,
    {
        proof {
            let seen = names.take(i as int);
            let name = names[i as int];
            assert(name == entries@[i as int].0@);
            assert(names.take(i + 1) =~= seen.push(name));
            seen.lemma_filter_push(name, busy_test(counters));
            seen.filter(busy_test(counters)).lemma_push_map_commute(
                activity_line_writer(counters),
                name,
            );
        }
        if entries[i].1 > 0 {
            let mut line = String::from_str("  ");
            line.append(entries[i].0.as_str());
            line.append(": ");
            line.append(decimal(entries[i].1).as_str());
            line.append(" bytes");
            assert(texts(lines@.push(line)) =~= texts(lines@).push(line@));
            lines.push(line);
        }
        i += 1;
    }
    assert(names.take(i as int) =~= names);
    lines
}

/// The lines of the listing that are written whatever the devices are.
pub open spec fn listing_opening() -> Seq<Seq<char>> {
    seq!["Available network interfaces:"@]
}

/// What the listing of interfaces writes: the whole listing where there
/// are devices to list, its opening alone where there are none.
pub open spec fn written_listing(
    enumerated: Result<Seq<Device>, Seq<char>>,
    routing: Outcome,
    names: Seq<Seq<char>>,
    counters: Map<Seq<char>, u64>,
) -> Seq<Seq<char>> {
    match listed_devices(enumerated) {
        Ok(devices) => interface_listing(devices, routing, names, counters),
        Err(_) => listing_opening(),
    }
}

/// Writes the listing of interfaces: the heading, the devices with their
/// tags, then the counters of the interfaces that have sent anything.
/// Where enumerating the devices failed or gave none, the heading is all
/// that is written, and the error follows it.
pub fn list_interfaces(
    enumerated: Result<Vec<NetworkDevice>, String>,
    routing: &CommandOutcome,
    activity: &NameMap<u64>,
) -> (written: (Vec<String>, Result<(), CaptureError>))
    ensures
        texts(written.0@) == written_listing(
            enumeration_view(enumerated),
            routing@,
            activity.names(),
            activity@,
        ),
        match written.1 {
            Ok(_) => listed_devices(enumeration_view(enumerated)) is Ok,
            Err(e) => listed_devices(enumeration_view(enumerated)) == Err::<
                Seq<Device>,
                CaptureFailure,
            >(e@),
        },
{
    let mut lines: Vec<String> = Vec::new();
    lines.push(String::from_str("Available network interfaces:"));
    assert(texts(lines@) =~= listing_opening());
    let devices = match PcapCapture::list_devices(enumerated) {
        Ok(devices) => devices,
        Err(e) => {
            return (lines, Err(e));
        },
    };
    let ghost all = device_views(devices@);
    let default_interface = match InterfaceDetector::get_default_interface(routing) {
        Ok(name) => Some(name),
        Err(_) => None,
    };
    let active = match InterfaceDetector::get_active_interfaces(routing) {
        Ok(names) => names,
        Err(_) => Vec::new(),
    };
    assert(texts(active@) =~= known_active(routing@));
    let ghost writer = device_line_writer(known_default(routing@), known_active(routing@));
    let mut i: usize = 0;
    assert(texts(lines@) =~= seq!["Available network interfaces:"@] + all.take(0).map_values(
        writer,
    ));
    while i < devices.len()
        invariant
            i <= devices.len(),
            all == device_views(devices@),
            writer == device_line_writer(known_default(routing@), known_active(routing@)),
            texts(active@) == known_active(routing@),
            match default_interface {
                Some(name) => Some(name@),
                None => None,
            } == known_default(routing@),
            texts(lines@) == seq!["Available network interfaces:"@] + all.take(
                i as int,
            ).map_values(writer),
        decreases devices.len() - i,
    {
        let line = device_line_of(&devices[i], &default_interface, &active);
        proof {
            assert(all[i as int] == devices@[i as int]@);
            assert(all.take(i + 1) =~= all.take(i as int).push(all[i as int]));
            assert(texts(lines@.push(line)) =~= texts(lines@).push(line@));
            assert(all.take(i + 1).map_values(writer) =~= all.take(i as int).map_values(
                writer,
            ).push(line@));
            assert(texts(lines@).push(line@) =~= seq!["Available network interfaces:"@] + all.take(
                i + 1,
            ).map_values(writer));
        }
        lines.push(line);
        i += 1;
    }
    assert(all.take(i as int) =~= all);
    let ghost head = texts(lines@);
    let blank = String::new();
    let heading = String::from_str("Interface activity (bytes transmitted):");
    assert(texts(lines@.push(blank)) =~= texts(lines@).push(blank@));
    lines.push(blank);
    assert(texts(lines@.push(heading)) =~= texts(lines@).push(heading@));
    lines.push(heading);
    let ghost middle = texts(lines@);
    assert(middle =~= head + seq![Seq::<char>::empty(), heading@]);
    let mut counters = activity_listing(activity);
    let ghost tail = texts(counters@);
    lines.append(&mut counters);
    assert(texts(lines@) =~= middle + tail);
    (lines, Ok(()))
}

/// Writes the lines that present `request`.
pub fn http_request_lines(request: &HttpRequest) -> (lines: Vec<String>)
    ensures
        texts(lines@) == message_lines(request@, request.header_order()),
{
    let mut first: String;
    let headers = match request {
        HttpRequest::Request { method, url, headers, .. } => {
            first = String::from_str("🚀 ");
            first.append(method.as_str());
            first.append(" ");
            first.append(url.as_str());
            headers
        },
        HttpRequest::Response { status, headers, .. } => {
            first = String::from_str("📥 HTTP/");
            first.append(status.as_str());
            headers
        },
    };
    let entries = headers.entries();
    let ghost order = request.header_order();
    let ghost fields = headers_in(request@);
    let ghost opening = seq![start_line(request@)];
    assert(fields == header_texts(headers@));
    let mut lines: Vec<String> = Vec::new();
    assert(texts(lines@.push(first)) =~= seq![first@]);
    lines.push(first);
    let mut i: usize = 0;
    assert(texts(lines@) =~= opening + order.take(0).map_values(header_line_writer(fields)));
    while i < entries.len()
        invariant
            i <= entries.len(),
            order == names_of(entries@),
            fields == header_texts(headers@),
            forall|k: int|
                0 <= k < entries@.len() ==> headers@.contains_key((#[trigger] entries@[k]).0@)
                    && headers@[entries@[k].0@] == entries@[k].1,
            texts(lines@) == opening + order.take(i as int).map_values(header_line_writer(fields)),
        decreases entries.len() - i,
    {
        let mut line = String::from_str("   ");
        line.append(entries[i].0.as_str());
        line.append(": ");
        line.append(entries[i].1.as_str());
        proof {
            let name = order[i as int];
            assert(name == entries@[i as int].0@);
            assert(fields[name] == entries@[i as int].1@);
            assert(line@ == header_line_writer(fields)(name));
            assert(order.take(i + 1) =~= order.take(i as int).push(name));
            assert(texts(lines@.push(line)) =~= texts(lines@).push(line@));
            assert(order.take(i + 1).map_values(header_line_writer(fields)) =~= order.take(
                i as int,
            ).map_values(header_line_writer(fields)).push(line@));
            assert(texts(lines@).push(line@) =~= opening + order.take(i + 1).map_values(
                header_line_writer(fields),
            ));
        }
        lines.push(line);
        i += 1;
    }
    assert(order.take(i as int) =~= order);
    let blank = String::new();
    assert(texts(lines@.push(blank)) =~= texts(lines@) + seq![Seq::<char>::empty()]);
    lines.push(blank);
    lines
}

} // verus!

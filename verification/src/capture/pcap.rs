//! Capture devices and the capture session.
//!
//! Nothing here touches a device. The caller enumerates the devices, opens
//! the one chosen here with the settings given here, reads packets, and
//! reports each outcome back; the session decides what follows.

use vstd::prelude::*;
use vstd::string::StringExecFns;
use crate::capture::interface_detection::{
    active_interfaces_of, default_interface_of, is_loopback_name, InterfaceDetector,
};
use crate::capture::routing_table::{CommandOutcome, Outcome};
use crate::search::{first_index, lemma_first_index, lemma_first_index_is, lemma_first_index_none};
use crate::text::{holds_name, same_text, texts};

verus! {

/// Why capturing could not start or go on.
#[derive(Debug)]
pub enum CaptureError {
    DeviceList(String),
    NoDevices,
    DeviceNotFound(String),
    CaptureOpen(String),
    CaptureConfig(String),
    PacketCapture(String),
}

/// Mathematical content of a [`CaptureError`].
pub enum CaptureFailure {
    DeviceList(Seq<char>),
    NoDevices,
    DeviceNotFound(Seq<char>),
    CaptureOpen(Seq<char>),
    CaptureConfig(Seq<char>),
    PacketCapture(Seq<char>),
}

impl View for CaptureError {
    type V = CaptureFailure;

    open spec fn view(&self) -> CaptureFailure {
        match self {
            CaptureError::DeviceList(m) => CaptureFailure::DeviceList(m@),
            CaptureError::NoDevices => CaptureFailure::NoDevices,
            CaptureError::DeviceNotFound(n) => CaptureFailure::DeviceNotFound(n@),
            CaptureError::CaptureOpen(m) => CaptureFailure::CaptureOpen(m@),
            CaptureError::CaptureConfig(m) => CaptureFailure::CaptureConfig(m@),
            CaptureError::PacketCapture(m) => CaptureFailure::PacketCapture(m@),
        }
    }
}

/// The sentence that describes a failure.
pub open spec fn capture_failure_text(failure: CaptureFailure) -> Seq<char> {
    match failure {
        CaptureFailure::DeviceList(m) => "Failed to list network devices: "@ + m,
        CaptureFailure::NoDevices => "No network devices available"@,
        CaptureFailure::DeviceNotFound(n) => "Device not found: "@ + n,
        CaptureFailure::CaptureOpen(m) => "Failed to open capture device: "@ + m,
        CaptureFailure::CaptureConfig(m) => "Failed to configure capture: "@ + m,
        CaptureFailure::PacketCapture(m) => "Packet capture error: "@ + m,
    }
}

impl CaptureError {
    /// The sentence that describes this error.
    pub fn message(&self) -> (text: String)
        ensures
            text@ == capture_failure_text(self@),
    {
        match self {
            CaptureError::DeviceList(m) => String::from_str(
                "Failed to list network devices: ",
            ).concat(m.as_str()),
            CaptureError::NoDevices => String::from_str("No network devices available"),
            CaptureError::DeviceNotFound(n) => String::from_str("Device not found: ").concat(
                n.as_str(),
            ),
            CaptureError::CaptureOpen(m) => String::from_str(
                "Failed to open capture device: ",
            ).concat(m.as_str()),
            CaptureError::CaptureConfig(m) => String::from_str(
                "Failed to configure capture: ",
            ).concat(m.as_str()),
            CaptureError::PacketCapture(m) => String::from_str("Packet capture error: ").concat(
                m.as_str(),
            ),
        }
    }
}

/// A device that packets can be captured on.
#[derive(Debug)]
pub struct NetworkDevice {
    /// The handle by which the device is opened.
    pub name: String,
    pub description: Option<String>,
}

/// Mathematical content of a [`NetworkDevice`].
pub struct Device {
    pub name: Seq<char>,
    pub description: Option<Seq<char>>,
}

impl View for NetworkDevice {
    type V = Device;

    open spec fn view(&self) -> Device {
        Device {
            name: self.name@,
            description: match self.description {
                Some(d) => Some(d@),
                None => None,
            },
        }
    }
}

impl Clone for NetworkDevice {
    fn clone(&self) -> (copy: Self)
        ensures
            copy@ == self@,
    {
        NetworkDevice {
            name: self.name.clone(),
            description: match &self.description {
                Some(d) => Some(d.clone()),
                None => None,
            },
        }
    }
}

/// The devices held by a sequence of device records.
pub open spec fn device_views(devices: Seq<NetworkDevice>) -> Seq<Device> {
    devices.map_values(|d: NetworkDevice| d@)
}

/// Mathematical content of what enumerating the devices gave.
pub open spec fn enumeration_view(enumerated: Result<Vec<NetworkDevice>, String>) -> Result<
    Seq<Device>,
    Seq<char>,
> {
    match enumerated {
        Ok(devices) => Ok(device_views(devices@)),
        Err(complaint) => Err(complaint@),
    }
}

/// The devices to choose from: those enumerated, where enumerating worked
/// and gave at least one.
pub open spec fn listed_devices(enumerated: Result<Seq<Device>, Seq<char>>) -> Result<
    Seq<Device>,
    CaptureFailure,
> {
    match enumerated {
        Err(complaint) => Err(CaptureFailure::DeviceList(complaint)),
        Ok(devices) => if devices.len() == 0 {
            Err(CaptureFailure::NoDevices)
        } else {
            Ok(devices)
        },
    }
}

/// The test that a device is called `name`.
pub open spec fn named_test(name: Seq<char>) -> spec_fn(Device) -> bool {
    |device: Device| device.name == name
}

/// The test that a device's name is one of `names`.
pub open spec fn listed_in_test(names: Seq<Seq<char>>) -> spec_fn(Device) -> bool {
    |device: Device| names.contains(device.name)
}

/// The test that a device is no loopback.
pub open spec fn outward_test() -> spec_fn(Device) -> bool {
    |device: Device| !is_loopback_name(device.name)
}

/// The first device named after the default route's interface.
pub open spec fn default_route_choice(devices: Seq<Device>, routing: Outcome) -> Option<int> {
    match default_interface_of(routing) {
        Ok(name) => first_index(devices, named_test(name)),
        Err(_) => None,
    }
}

/// The first device whose name is among the active interfaces.
pub open spec fn active_choice(devices: Seq<Device>, routing: Outcome) -> Option<int> {
    match active_interfaces_of(routing) {
        Ok(names) => first_index(devices, listed_in_test(names)),
        Err(_) => None,
    }
}

/// The first device that is no loopback.
pub open spec fn outward_choice(devices: Seq<Device>) -> Option<int> {
    first_index(devices, outward_test())
}

/// Position of the device to capture on. Four rules are tried in order,
/// each only where the one before names no device: the device of the
/// default route; the first device with an active interface; the first
/// device that is no loopback; the first device.
pub open spec fn best_device_index(devices: Seq<Device>, routing: Outcome) -> int {
    if default_route_choice(devices, routing) is Some {
        default_route_choice(devices, routing)->0
    } else if active_choice(devices, routing) is Some {
        active_choice(devices, routing)->0
    } else if outward_choice(devices) is Some {
        outward_choice(devices)->0
    } else {
        0
    }
}

/// The device to capture on, given what enumerating the devices and
/// querying the routing table gave.
pub open spec fn best_device(enumerated: Result<Seq<Device>, Seq<char>>, routing: Outcome) -> Result<
    Device,
    CaptureFailure,
> {
    match listed_devices(enumerated) {
        Err(failure) => Err(failure),
        Ok(devices) => Ok(devices[best_device_index(devices, routing)]),
    }
}

/// The device that a request to capture resolves to: the first device of
/// the given name where one is given, else the best device.
pub open spec fn resolved_device(
    interface_name: Option<Seq<char>>,
    enumerated: Result<Seq<Device>, Seq<char>>,
    routing: Outcome,
) -> Result<Device, CaptureFailure> {
    match interface_name {
        Some(name) => match listed_devices(enumerated) {
            Err(failure) => Err(failure),
            Ok(devices) => match first_index(devices, named_test(name)) {
                Some(i) => Ok(devices[i]),
                None => Err(CaptureFailure::DeviceNotFound(name)),
            },
        },
        None => best_device(enumerated, routing),
    }
}

/// Position of the first of `devices` that is called `name`.
pub fn first_named(devices: &Vec<NetworkDevice>, name: &str) -> (found: Option<usize>)
    ensures
        match found {
            Some(i) => i < devices@.len() && first_index(device_views(devices@), named_test(name@))
                == Some(i as int),
            None => first_index(device_views(devices@), named_test(name@)) is None,
        },
{
    let ghost all = device_views(devices@);
    let ghost test = named_test(name@);
    let mut i: usize = 0;
    while i < devices.len()
        invariant
            i <= devices.len(),
            all == device_views(devices@),
            test == named_test(name@),
            forall|j: int| 0 <= j < i ==> !test(#[trigger] all[j]),
        decreases devices.len() - i,
    {
        assert(all[i as int] == devices@[i as int]@);
        if same_text(devices[i].name.as_str(), name) {
            proof {
                lemma_first_index_is(all, test, i as int);
            }
            return Some(i);
        }
        i += 1;
    }
    proof {
        lemma_first_index_none(all, test);
    }
    None
}

/// Position of the first of `devices` whose name is one of `names`.
pub fn first_listed(devices: &Vec<NetworkDevice>, names: &Vec<String>) -> (found: Option<usize>)
    ensures
        match found {
            Some(i) => i < devices@.len() && first_index(
                device_views(devices@),
                listed_in_test(texts(names@)),
            ) == Some(i as int),
            None => first_index(device_views(devices@), listed_in_test(texts(names@))) is None,
        },
{
    let ghost all = device_views(devices@);
    let ghost test = listed_in_test(texts(names@));
    let mut i: usize = 0;
    while i < devices.len()
        invariant
            i <= devices.len(),
            all == device_views(devices@),
            test == listed_in_test(texts(names@)),
            forall|j: int| 0 <= j < i ==> !test(#[trigger] all[j]),
        decreases devices.len() - i,
    {
        assert(all[i as int] == devices@[i as int]@);
        if holds_name(names, devices[i].name.as_str()) {
            proof {
                lemma_first_index_is(all, test, i as int);
            }
            return Some(i);
        }
        i += 1;
    }
    proof {
        lemma_first_index_none(all, test);
    }
    None
}

/// Position of the first of `devices` that is no loopback.
pub fn first_outward(devices: &Vec<NetworkDevice>) -> (found: Option<usize>)
    ensures
        match found {
            Some(i) => i < devices@.len() && first_index(device_views(devices@), outward_test())
                == Some(i as int),
            None => first_index(device_views(devices@), outward_test()) is None,
        },
{
    let ghost all = device_views(devices@);
    let mut i: usize = 0;
    while i < devices.len()
        invariant
            i <= devices.len(),
            all == device_views(devices@),
            forall|j: int| 0 <= j < i ==> !outward_test()(#[trigger] all[j]),
        decreases devices.len() - i,
    {
        assert(all[i as int] == devices@[i as int]@);
        if !InterfaceDetector::is_loopback_name(devices[i].name.as_str()) {
            proof {
                lemma_first_index_is(all, outward_test(), i as int);
            }
            return Some(i);
        }
        i += 1;
    }
    proof {
        lemma_first_index_none(all, outward_test());
    }
    None
}

/// How a capture is opened.
#[derive(Debug)]
pub struct CaptureSettings {
    /// Receive all traffic visible on the link.
    pub promiscuous: bool,
    /// Most bytes kept of one packet.
    pub snapshot_length: i32,
    /// Longest wait of one read, in milliseconds.
    pub read_timeout_ms: i32,
    /// Deliver each packet as it arrives.
    pub immediate: bool,
    /// The capture filter.
    pub filter: String,
}

/// Snapshot length that covers a frame of the greatest size.
pub const SNAPSHOT_LENGTH: i32 = 65535;

/// Read timeout in milliseconds: the longest that a stop request waits.
pub const READ_TIMEOUT_MS: i32 = 100;

/// What opening and configuring the chosen device gave.
#[derive(Debug)]
pub enum OpenOutcome {
    /// The device is open and configured.
    Opened,
    /// The device could not be opened; the capture library's complaint.
    OpenFailed(String),
    /// The device could not be configured; the capture library's complaint.
    ConfigFailed(String),
}

/// Where a capture session stands.
#[derive(Debug, Clone, Copy, PartialEq, Eq, Structural)]
pub enum CaptureState {
    /// Not reading yet.
    Idle,
    /// In the read cycle.
    Reading,
    /// The packet handler asked to stop.
    Stopped,
    /// A read failed.
    Failed,
}

/// What one bounded read gave.
#[derive(Debug)]
pub enum ReadEvent {
    /// A packet arrived and was handed to the packet handler, which said
    /// whether to go on.
    Packet { keep_going: bool },
    /// The read timed out.
    Timeout,
    /// The read failed; the capture library's complaint.
    Failure(String),
}

/// Mathematical content of a [`ReadEvent`].
pub enum Event {
    Packet { keep_going: bool },
    Timeout,
    Failure(Seq<char>),
}

impl View for ReadEvent {
    type V = Event;

    open spec fn view(&self) -> Event {
        match self {
            ReadEvent::Packet { keep_going } => Event::Packet { keep_going: *keep_going },
            ReadEvent::Timeout => Event::Timeout,
            ReadEvent::Failure(complaint) => Event::Failure(complaint@),
        }
    }
}

/// What the driver of a session does next.
#[derive(Debug)]
pub enum LoopAction {
    /// Read again.
    Read,
    /// Leave the read cycle: it ended in order.
    Finish,
    /// Leave the read cycle with this error.
    Abort(CaptureError),
}

/// Mathematical content of a [`LoopAction`].
pub enum Action {
    Read,
    Finish,
    Abort(CaptureFailure),
}

impl View for LoopAction {
    type V = Action;

    open spec fn view(&self) -> Action {
        match self {
            LoopAction::Read => Action::Read,
            LoopAction::Finish => Action::Finish,
            LoopAction::Abort(e) => Action::Abort(e@),
        }
    }
}

/// The state that follows `state` on `event`. Only a session that is
/// reading moves: a packet whose handler says stop stops it, a failed
/// read fails it, anything else leaves it reading.
pub open spec fn next_state(state: CaptureState, event: Event) -> CaptureState {
    if state == CaptureState::Reading {
        match event {
            Event::Packet { keep_going } => if keep_going {
                CaptureState::Reading
            } else {
                CaptureState::Stopped
            },
            Event::Timeout => CaptureState::Reading,
            Event::Failure(_) => CaptureState::Failed,
        }
    } else {
        state
    }
}

/// The action that answers `event` in `state`.
pub open spec fn next_action(state: CaptureState, event: Event) -> Action {
    if state == CaptureState::Reading {
        match event {
            Event::Packet { keep_going } => if keep_going {
                Action::Read
            } else {
                Action::Finish
            },
            Event::Timeout => Action::Read,
            Event::Failure(complaint) => Action::Abort(CaptureFailure::PacketCapture(complaint)),
        }
    } else {
        Action::Finish
    }
}

/// Whether capturing goes on after a packet: the session has not been
/// told to stop, and the time allowed, where there is a limit, is not up.
pub open spec fn should_continue(running: bool, elapsed_secs: u64, limit_secs: Option<u64>) -> bool {
    running && match limit_secs {
        Some(limit) => elapsed_secs < limit,
        None => true,
    }
}

/// Decides for the packet handler whether capturing goes on. `running` is
/// the cancellation flag as read now, `elapsed_secs` the whole seconds
/// since capturing began.
pub fn keep_capturing(running: bool, elapsed_secs: u64, limit_secs: Option<u64>) -> (go_on: bool)
    ensures
        go_on == should_continue(running, elapsed_secs, limit_secs),
{
    if !running {
        return false;
    }
    match limit_secs {
        Some(limit) => elapsed_secs < limit,
        None => true,
    }
}

/// Counters of a capture session.
#[derive(Debug, Clone, Copy, PartialEq, Eq, Structural)]
pub struct CaptureStats {
    pub received: u32,
    pub dropped: u32,
    pub if_dropped: u32,
}

/// A capture session on one device.
#[derive(Debug)]
pub struct PcapCapture {
    interface_name: String,
    state: CaptureState,
}

impl PcapCapture {
    /// Name of the device that the session captures on.
    pub closed spec fn device_name(&self) -> Seq<char> {
        self.interface_name@
    }

    /// Where the session stands.
    pub closed spec fn phase(&self) -> CaptureState {
        self.state
    }

    /// Checks what enumerating the devices gave: a complaint is an error,
    /// and so is an empty list.
    pub fn list_devices(enumerated: Result<Vec<NetworkDevice>, String>) -> (listed: Result<
        Vec<NetworkDevice>,
        CaptureError,
    >)
        ensures
            match listed {
                Ok(devices) => enumerated == Ok::<Vec<NetworkDevice>, String>(devices)
                    && devices@.len() > 0,
                Err(e) => listed_devices(enumeration_view(enumerated)) == Err::<
                    Seq<Device>,
                    CaptureFailure,
                >(e@),
            },
            listed is Ok <==> listed_devices(enumeration_view(enumerated)) is Ok,
    {
        match enumerated {
            Err(complaint) => Err(CaptureError::DeviceList(complaint)),
            Ok(devices) => {
                if devices.len() == 0 {
                    return Err(CaptureError::NoDevices);
                }
                Ok(devices)
            },
        }
    }

    /// Chooses the device to capture on. Fails only where enumerating the
    /// devices failed or gave none.
    pub fn find_best_device(
        enumerated: Result<Vec<NetworkDevice>, String>,
        routing: &CommandOutcome,
    ) -> (best: Result<NetworkDevice, CaptureError>)
        ensures
            match best {
                Ok(device) => best_device(enumeration_view(enumerated), routing@) == Ok::<
                    Device,
                    CaptureFailure,
                >(device@),
                Err(e) => best_device(enumeration_view(enumerated), routing@) == Err::<
                    Device,
                    CaptureFailure,
                >(e@),
            },
    {
        let devices = match Self::list_devices(enumerated) {
            Ok(devices) => devices,
            Err(e) => {
                return Err(e);
            },
        };
        let ghost all = device_views(devices@);
        assert(listed_devices(enumeration_view(enumerated)) == Ok::<Seq<Device>, CaptureFailure>(
            all,
        ));
        match InterfaceDetector::get_default_interface(routing) {
            Ok(default_interface) => {
                match first_named(&devices, default_interface.as_str()) {
                    Some(i) => {
                        assert(all[i as int] == devices@[i as int]@);
                        return Ok(devices[i].clone());
                    },
                    None => {},
                }
            },
            Err(_) => {},
        }
        match InterfaceDetector::get_active_interfaces(routing) {
            Ok(active_interfaces) => {
                match first_listed(&devices, &active_interfaces) {
                    Some(i) => {
                        assert(all[i as int] == devices@[i as int]@);
                        return Ok(devices[i].clone());
                    },
                    None => {},
                }
            },
            Err(_) => {},
        }
        match first_outward(&devices) {
            Some(i) => {
                assert(all[i as int] == devices@[i as int]@);
                return Ok(devices[i].clone());
            },
            None => {},
        }
        assert(all[0] == devices@[0]@);
        Ok(devices[0].clone())
    }

    /// Resolves the device to capture on: the device called
    /// `interface_name` where a name is given, else the best device.
    pub fn resolve_device(
        interface_name: Option<&str>,
        enumerated: Result<Vec<NetworkDevice>, String>,
        routing: &CommandOutcome,
    ) -> (device: Result<NetworkDevice, CaptureError>)
        ensures
            match device {
                Ok(d) => resolved_device(
                    name_view(interface_name),
                    enumeration_view(enumerated),
                    routing@,
                ) == Ok::<Device, CaptureFailure>(d@),
                Err(e) => resolved_device(
                    name_view(interface_name),
                    enumeration_view(enumerated),
                    routing@,
                ) == Err::<Device, CaptureFailure>(e@),
            },
    {
        match interface_name {
            Some(name) => {
                let devices = match Self::list_devices(enumerated) {
                    Ok(devices) => devices,
                    Err(e) => {
                        return Err(e);
                    },
                };
                let ghost all = device_views(devices@);
                match first_named(&devices, name) {
                    Some(i) => {
                        assert(all[i as int] == devices@[i as int]@);
                        Ok(devices[i].clone())
                    },
                    None => Err(CaptureError::DeviceNotFound(String::from_str(name))),
                }
            },
            None => Self::find_best_device(enumerated, routing),
        }
    }

    /// The settings that a capture is opened with: promiscuous, whole
    /// frames, a short read timeout, immediate delivery, TCP only.
    pub fn settings() -> (s: CaptureSettings)
        ensures
            s.promiscuous,
            s.snapshot_length == SNAPSHOT_LENGTH,
            s.read_timeout_ms == READ_TIMEOUT_MS,
            s.immediate,
            s.filter@ == "tcp"@,
    {
        CaptureSettings {
            promiscuous: true,
            snapshot_length: SNAPSHOT_LENGTH,
            read_timeout_ms: READ_TIMEOUT_MS,
            immediate: true,
            filter: String::from_str("tcp"),
        }
    }

    /// Makes the session on `device`, given what opening and configuring
    /// that device gave.
    pub fn new(device: NetworkDevice, opened: OpenOutcome) -> (session: Result<
        PcapCapture,
        CaptureError,
    >)
        ensures
            match session {
                Ok(s) => opened is Opened && s.device_name() == device.name@ && s.phase()
                    == CaptureState::Idle,
                Err(e) => match opened {
                    OpenOutcome::Opened => false,
                    OpenOutcome::OpenFailed(m) => e@ == CaptureFailure::CaptureOpen(m@),
                    OpenOutcome::ConfigFailed(m) => e@ == CaptureFailure::CaptureConfig(m@),
                },
            },
    {
        match opened {
            OpenOutcome::Opened => Ok(
                PcapCapture { interface_name: device.name, state: CaptureState::Idle },
            ),
            OpenOutcome::OpenFailed(complaint) => Err(CaptureError::CaptureOpen(complaint)),
            OpenOutcome::ConfigFailed(complaint) => Err(CaptureError::CaptureConfig(complaint)),
        }
    }

    /// Enters the read cycle and asks for the first read.
    pub fn start_capture(&mut self) -> (action: LoopAction)
        ensures
            final(self).phase() == CaptureState::Reading,
            final(self).device_name() == old(self).device_name(),
            action@ == Action::Read,
    {
        self.state = CaptureState::Reading;
        LoopAction::Read
    }

    /// Takes what the last read gave and says what to do next.
    pub fn handle_read(&mut self, event: ReadEvent) -> (action: LoopAction)
        ensures
            final(self).phase() == next_state(old(self).phase(), event@),
            final(self).device_name() == old(self).device_name(),
            action@ == next_action(old(self).phase(), event@),
    {
        match self.state {
            CaptureState::Reading => {},
            _ => {
                return LoopAction::Finish;
            },
        }
        match event {
            ReadEvent::Packet { keep_going } => {
                if keep_going {
                    LoopAction::Read
                } else {
                    self.state = CaptureState::Stopped;
                    LoopAction::Finish
                }
            },
            ReadEvent::Timeout => LoopAction::Read,
            ReadEvent::Failure(complaint) => {
                self.state = CaptureState::Failed;
                LoopAction::Abort(CaptureError::PacketCapture(complaint))
            },
        }
    }

    /// Passes on the counters that the capture library reported, or its
    /// complaint as an error.
    pub fn stats(&self, reported: Result<CaptureStats, String>) -> (stats: Result<
        CaptureStats,
        CaptureError,
    >)
        ensures
            match reported {
                Ok(counters) => stats == Ok::<CaptureStats, CaptureError>(counters),
                Err(complaint) => stats matches Err(e) && e@ == CaptureFailure::PacketCapture(
                    complaint@,
                ),
            },
    {
        match reported {
            Ok(counters) => Ok(counters),
            Err(complaint) => Err(CaptureError::PacketCapture(complaint)),
        }
    }

    /// Name of the device that the session captures on.
    pub fn interface_name(&self) -> (name: &str)
        ensures
            name@ == self.device_name(),
    {
        self.interface_name.as_str()
    }

    /// Where the session stands.
    pub fn state(&self) -> (state: CaptureState)
        ensures
            state == self.phase(),
    {
        self.state
    }
}

/// The text held by an optional string slice.
pub open spec fn name_view(name: Option<&str>) -> Option<Seq<char>> {
    match name {
        Some(n) => Some(n@),
        None => None,
    }
}

/// Each rule of the choice names a device of the list that meets the
/// rule, and the first such device.
pub proof fn lemma_best_device_is_listed(devices: Seq<Device>, routing: Outcome)
    requires
        devices.len() > 0,
    ensures
        0 <= best_device_index(devices, routing) < devices.len(),
{
    match default_interface_of(routing) {
        Ok(name) => {
            lemma_first_index(devices, named_test(name));
        },
        Err(_) => {},
    }
    match active_interfaces_of(routing) {
        Ok(names) => {
            lemma_first_index(devices, listed_in_test(names));
        },
        Err(_) => {},
    }
    lemma_first_index(devices, outward_test());
}

/// Where no device is named after the default route's interface, the
/// choice falls to the first device with an active interface; where there
/// is none, to the first device that is no loopback; where there is none
/// either, to the first device.
pub proof fn lemma_choice_falls_through(devices: Seq<Device>, routing: Outcome)
    requires
        devices.len() > 0,
        match default_interface_of(routing) {
            Ok(name) => forall|i: int| 0 <= i < devices.len() ==> (#[trigger] devices[i]).name
                != name,
            Err(_) => true,
        },
    ensures
        match active_choice(devices, routing) {
            Some(i) => best_device_index(devices, routing) == i,
            None => match outward_choice(devices) {
                Some(i) => best_device_index(devices, routing) == i,
                None => best_device_index(devices, routing) == 0,
            },
        },
        active_choice(devices, routing) matches Some(i) ==> {
            &&& 0 <= i < devices.len()
            &&& active_interfaces_of(routing) matches Ok(names) && names.contains(devices[i].name)
        },
        active_choice(devices, routing) is None ==> (outward_choice(devices) matches Some(i) ==> {
            &&& 0 <= i < devices.len()
            &&& !is_loopback_name(devices[i].name)
            &&& forall|j: int| 0 <= j < i ==> is_loopback_name((#[trigger] devices[j]).name)
        }),
{
    match default_interface_of(routing) {
        Ok(name) => {
            assert forall|i: int| 0 <= i < devices.len() implies !named_test(name)(
                #[trigger] devices[i],
            ) by {
                assert(devices[i].name != name);
            }
            lemma_first_index_none(devices, named_test(name));
        },
        Err(_) => {},
    }
    match active_interfaces_of(routing) {
        Ok(names) => {
            lemma_first_index(devices, listed_in_test(names));
        },
        Err(_) => {},
    }
    lemma_first_index(devices, outward_test());
    match outward_choice(devices) {
        Some(i) => {
            assert forall|j: int| 0 <= j < i implies is_loopback_name(
                (#[trigger] devices[j]).name,
            ) by {
                assert(!outward_test()(devices[j]));
            }
        },
        None => {},
    }
}

/// Choosing a device fails only where enumerating the devices failed or
/// gave none, whatever the routing query gave.
pub proof fn lemma_choice_fails_only_without_devices(
    enumerated: Result<Seq<Device>, Seq<char>>,
    routing: Outcome,
)
    ensures
        best_device(enumerated, routing) is Ok <==> (enumerated matches Ok(devices)
            && devices.len() > 0),
        best_device(enumerated, routing) matches Ok(device) ==> (enumerated matches Ok(devices)
            && devices.contains(device)),
{
    match enumerated {
        Ok(devices) => {
            if devices.len() > 0 {
                lemma_best_device_is_listed(devices, routing);
            }
        },
        Err(_) => {},
    }
}

/// A session that has stopped or failed stays as it is and asks for no
/// further read, whatever is reported to it.
pub proof fn lemma_stop_is_final(state: CaptureState, event: Event)
    requires
        state == CaptureState::Stopped || state == CaptureState::Failed,
    ensures
        next_state(state, event) == state,
        next_action(state, event) == Action::Finish,
{
}

/// With the cancellation flag cleared, the handler's answer to the next
/// packet is to stop, and a reading session stops on it.
pub proof fn lemma_cleared_flag_stops(elapsed_secs: u64, limit_secs: Option<u64>)
    ensures
        !should_continue(false, elapsed_secs, limit_secs),
        next_state(
            CaptureState::Reading,
            Event::Packet { keep_going: should_continue(false, elapsed_secs, limit_secs) },
        ) == CaptureState::Stopped,
        next_action(
            CaptureState::Reading,
            Event::Packet { keep_going: should_continue(false, elapsed_secs, limit_secs) },
        ) == Action::Finish,
{
}

/// The state in which a session is after `events`, starting from `state`.
pub open spec fn state_after(state: CaptureState, events: Seq<Event>) -> CaptureState
    decreases events.len(),
{
    if events.len() == 0 {
        state
    } else {
        next_state(state_after(state, events.drop_last()), events.last())
    }
}

/// Once the packet handler has said stop to a reading session, no later
/// report makes the session ask for a read: no packet is read, and the
/// handler is not called again.
pub proof fn lemma_no_read_after_stop(state: CaptureState, events: Seq<Event>, k: int, j: int)
    requires
        0 <= k < j < events.len(),
        state_after(state, events.take(k)) == CaptureState::Reading,
        events[k] == (Event::Packet { keep_going: false }),
    ensures
        state_after(state, events.take(j)) == CaptureState::Stopped,
        next_action(state_after(state, events.take(j)), events[j]) == Action::Finish,
    decreases j - k,
{
    let before = events.take(j);
    assert(before.drop_last() =~= events.take(j - 1));
    assert(before.last() == events[j - 1]);
    if j - 1 == k {
    } else {
        lemma_no_read_after_stop(state, events, k, j - 1);
    }
}

} // verus!

pub mod activity;
pub mod interface_detection;
pub mod pcap;
pub mod routing_table;

pub use interface_detection::{InterfaceDetectionError, InterfaceDetector};
pub use pcap::{CaptureError, NetworkDevice, PcapCapture};
pub use routing_table::{CommandOutcome, RouteInfo};

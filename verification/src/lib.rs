//! Observing HTTP traffic on a host: which interface to capture on, how a
//! capture session runs, and what HTTP messages the captured frames hold.
//!
//! The library decides and computes; it performs no input or output. The
//! program around it queries the system, opens the capture device and
//! reads packets, and hands each outcome to the functions here.

pub mod capture;
pub mod http_parser;
pub mod launch;
pub mod name_map;
pub mod numeral;
pub mod packet;
pub mod report;
pub mod search;
pub mod text;

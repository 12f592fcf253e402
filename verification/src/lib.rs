//! A command-line bridge that launches a LabVIEW application, exchanges
//! length-prefixed framed messages with it over a local byte stream, relays
//! its output, and supervises the launched process until it reports an exit
//! code or is torn down.

pub mod action_loop;
pub mod cli;
pub mod comms;
pub mod comms_loop;
pub mod install_detection;
pub mod installs;
pub mod labview_error;
pub mod launch;
pub mod os_string_support;
pub mod port_discovery;
pub mod process;
pub mod signal_loop;
pub mod strutil;
pub mod vi_location;

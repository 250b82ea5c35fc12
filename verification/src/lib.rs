//! Acquisition-and-decode backbone of an ADS-B receiver: device/channel
//! configuration resolution, the acquisition loop's control policy, the
//! Extended-Squitter (Mode S) message decoder, and best-effort fan-out of
//! decoded records to connected clients.

pub mod acquisition;
pub mod broadcast;
pub mod device;
pub mod parse;
pub mod sdrconfig;

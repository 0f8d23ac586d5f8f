//! The verified core of a tool that reads the system log and the
//! properties of attached mobile devices.
//!
//! The library works on plain values: bytes and text that were received
//! from a device, commands, and the lines of property lists. It parses and
//! filters log records, decides what a log worker does next and what its
//! sink writes, and reads a device's values out of the answers of its
//! lockdown service. Talking to devices, running threads and writing
//! files is left to the caller.
pub mod device;
pub mod device_info;
pub mod device_syslog;
pub mod devices_collection;
pub mod errors;
pub mod text;

//! What a device reports about itself.
pub mod domains;
pub mod errors;
pub mod info;
pub mod keys;
pub mod table;

pub use domains::DeviceDomains;
pub use errors::{DeviceInfoError, LockdowndError};
pub use info::{DeviceInfo, PlistLine};
pub use keys::DeviceKeys;
pub use table::PropertyTable;

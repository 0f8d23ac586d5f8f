//! What asking a device for its values can fail with.
use vstd::prelude::*;

verus! {

/// A failure that the device's lockdown service reported, in the words
/// of the service.
#[derive(Debug, Clone, PartialEq, Eq)]
pub struct LockdowndError {
    pub reason: String,
}

/// A failure to get a value of a device.
#[derive(Debug, Clone, PartialEq, Eq)]
pub enum DeviceInfoError {
    /// The lockdown service failed.
    LockdowndError(LockdowndError),
    /// The device reported no value under the key.
    KeyNotFound,
}

} // verus!

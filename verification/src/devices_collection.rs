//! The devices that a client addresses.
use vstd::prelude::*;

verus! {

/// Marks a client, and what is built on it, as addressing one device.
#[derive(Debug, Clone, Copy, PartialEq, Eq, Structural)]
pub struct SingleDevice();

/// Marks a client, and what is built on it, as addressing several
/// devices at once.
#[derive(Debug, Clone, Copy, PartialEq, Eq, Structural)]
pub struct DeviceGroup();

/// An attached device, known by its unique device identifier.
#[derive(Debug, Clone, PartialEq, Eq)]
pub struct Device {
    pub udid: String,
}

/// One device, or several.
#[derive(Debug, Clone, PartialEq, Eq)]
pub enum Devices {
    Single(Device),
    Multiple(Vec<Device>),
}

impl Devices {
    /// The device, where this is a single one.
    pub fn get_device(&self) -> (device: Option<&Device>)
        ensures
            device == match *self {
                Devices::Single(single) => Some(&single),
                Devices::Multiple(_) => None::<&Device>,
            },
    {
        if let Devices::Single(device) = self {
            Some(device)
        } else {
            None
        }
    }

    /// The devices, where these are several.
    pub fn get_devices(&self) -> (devices: Option<&Vec<Device>>)
        ensures
            devices == match *self {
                Devices::Single(_) => None::<&Vec<Device>>,
                Devices::Multiple(several) => Some(&several),
            },
    {
        if let Devices::Multiple(devices) = self {
            Some(devices)
        } else {
            None
        }
    }
}

} // verus!

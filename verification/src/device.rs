//! A client for one device or for a group of devices.
use vstd::prelude::*;
use std::marker::PhantomData;
use crate::devices_collection::{Device, DeviceGroup, Devices, SingleDevice};

verus! {

/// A client that addresses the devices it was made for. The marker `T`
/// says whether that is one device or a group.
#[derive(Debug)]
pub struct DeviceClient<T> {
    devices: Devices,
    _p: PhantomData<T>,
}

impl<T> DeviceClient<T> {
    /// The devices that the client addresses.
    pub closed spec fn devices(&self) -> Devices {
        self.devices
    }

    /// The devices that the client addresses.
    pub fn get_devices(&self) -> (devices: &Devices)
        ensures
            *devices == self.devices(),
    {
        &self.devices
    }
}

impl DeviceClient<SingleDevice> {
    /// A client for one device.
    pub fn single(device: Device) -> (client: DeviceClient<SingleDevice>)
        ensures
            client.devices() == Devices::Single(device),
    {
        DeviceClient { devices: Devices::Single(device), _p: PhantomData }
    }
}

impl DeviceClient<DeviceGroup> {
    /// A client for a group of devices.
    pub fn group(devices: Vec<Device>) -> (client: DeviceClient<DeviceGroup>)
        ensures
            client.devices() == Devices::Multiple(devices),
    {
        DeviceClient { devices: Devices::Multiple(devices), _p: PhantomData }
    }
}

} // verus!

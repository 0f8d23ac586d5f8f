//! The keys under which a device reports its values.
use vstd::prelude::*;
use vstd::string::StringExecFns;

verus! {

/// A key of the values that a device reports of itself.
#[derive(Debug, Clone, Copy, PartialEq, Eq, Structural)]
pub enum DeviceKeys {
    DeviceName,
    DeviceClass,
    ProductType,
    ProductVersion,
    BuildVersion,
    SerialNumber,
    UniqueDeviceID,
    HardwareModel,
    CPUArchitecture,
    WiFiAddress,
}

impl DeviceKeys {
    /// The key as the device spells it.
    pub open spec fn name(self) -> Seq<char> {
        match self {
            DeviceKeys::DeviceName => "DeviceName"@,
            DeviceKeys::DeviceClass => "DeviceClass"@,
            DeviceKeys::ProductType => "ProductType"@,
            DeviceKeys::ProductVersion => "ProductVersion"@,
            DeviceKeys::BuildVersion => "BuildVersion"@,
            DeviceKeys::SerialNumber => "SerialNumber"@,
            DeviceKeys::UniqueDeviceID => "UniqueDeviceID"@,
            DeviceKeys::HardwareModel => "HardwareModel"@,
            DeviceKeys::CPUArchitecture => "CPUArchitecture"@,
            DeviceKeys::WiFiAddress => "WiFiAddress"@,
        }
    }

    /// The key as the device spells it.
    pub fn as_str(&self) -> (name: &'static str)
        ensures
            name@ == self.name(),
    {
        match self {
            DeviceKeys::DeviceName => "DeviceName",
            DeviceKeys::DeviceClass => "DeviceClass",
            DeviceKeys::ProductType => "ProductType",
            DeviceKeys::ProductVersion => "ProductVersion",
            DeviceKeys::BuildVersion => "BuildVersion",
            DeviceKeys::SerialNumber => "SerialNumber",
            DeviceKeys::UniqueDeviceID => "UniqueDeviceID",
            DeviceKeys::HardwareModel => "HardwareModel",
            DeviceKeys::CPUArchitecture => "CPUArchitecture",
            DeviceKeys::WiFiAddress => "WiFiAddress",
        }
    }

    /// The key as the device spells it, as an owned string.
    pub fn to_string(&self) -> (name: String)
        ensures
            name@ == self.name(),
    {
        String::from_str(self.as_str())
    }
}

} // verus!

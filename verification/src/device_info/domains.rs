//! The domains in which a device keeps its values.
use vstd::prelude::*;
use vstd::string::StringExecFns;

verus! {

/// A domain of the values that a device reports of itself.
#[derive(Debug, Clone, Copy, PartialEq, Eq, Structural)]
pub enum DeviceDomains {
    /// The global domain, which holds the values of no other domain.
    All,
    Battery,
    DiskUsage,
    DeveloperMode,
    International,
    Wireless,
}

impl DeviceDomains {
    /// The domain as the device spells it. The global domain is the
    /// empty string.
    pub open spec fn name(self) -> Seq<char> {
        match self {
            DeviceDomains::All => ""@,
            DeviceDomains::Battery => "com.apple.mobile.battery"@,
            DeviceDomains::DiskUsage => "com.apple.disk_usage"@,
            DeviceDomains::DeveloperMode => "com.apple.security.mac.amfi"@,
            DeviceDomains::International => "com.apple.international"@,
            DeviceDomains::Wireless => "com.apple.mobile.wireless_lockdown"@,
        }
    }

    /// The domain as the device spells it.
    pub fn as_string(&self) -> (name: String)
        ensures
            name@ == self.name(),
    {
        match self {
            DeviceDomains::All => String::from_str(""),
            DeviceDomains::Battery => String::from_str("com.apple.mobile.battery"),
            DeviceDomains::DiskUsage => String::from_str("com.apple.disk_usage"),
            DeviceDomains::DeveloperMode => String::from_str("com.apple.security.mac.amfi"),
            DeviceDomains::International => String::from_str("com.apple.international"),
            DeviceDomains::Wireless => String::from_str("com.apple.mobile.wireless_lockdown"),
        }
    }
}

} // verus!

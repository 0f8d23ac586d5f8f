//! What the library's operations can fail with.
use vstd::prelude::*;

verus! {

/// A failure of the log controller.
#[derive(Debug, Clone, Copy, PartialEq, Eq, Structural)]
pub enum DeviceSysLogError {
    /// The active filter is the reserved `Trigger`, which is not
    /// supported.
    UnsupportedFilter,
}

impl DeviceSysLogError {
    /// The failure in words.
    pub fn message(&self) -> (text: &'static str)
        ensures
            text@ == match *self {
                DeviceSysLogError::UnsupportedFilter => "the trigger filter is not supported"@,
            },
    {
        match self {
            DeviceSysLogError::UnsupportedFilter => "the trigger filter is not supported",
        }
    }
}

} // verus!

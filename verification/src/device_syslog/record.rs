//! One parsed line of a device's system log.
use vstd::prelude::*;
use vstd::std_specs::cmp::PartialEqSpecImpl;
use crate::text::str_eq;

verus! {

/// The mathematical value of a log record: each field as a sequence of
/// characters.
pub struct LogRecord {
    pub date: Seq<char>,
    pub device: Seq<char>,
    pub process: Seq<char>,
    pub pid: Option<Seq<char>>,
    pub severity: Option<Seq<char>>,
    pub message: Seq<char>,
}

impl LogRecord {
    /// The record with every field empty. It stands for a line that is not
    /// to be delivered.
    pub open spec fn empty() -> LogRecord {
        LogRecord {
            date: Seq::empty(),
            device: Seq::empty(),
            process: Seq::empty(),
            pid: None,
            severity: None,
            message: Seq::empty(),
        }
    }

    /// Whether this is the empty record.
    pub open spec fn is_empty(self) -> bool {
        self == LogRecord::empty()
    }
}

/// The characters of an optional string slice.
pub open spec fn opt_view(field: Option<&str>) -> Option<Seq<char>> {
    match field {
        Some(text) => Some(text@),
        None => None,
    }
}

/// A structured view over one line of log text. The fields borrow from the
/// line they were read from.
#[derive(Debug, Clone, Copy)]
pub struct LogsData<'a> {
    pub date: &'a str,
    pub device: &'a str,
    pub process: &'a str,
    pub pid: Option<&'a str>,
    pub severity: Option<&'a str>,
    pub message: &'a str,
}

impl<'a> View for LogsData<'a> {
    type V = LogRecord;

    open spec fn view(&self) -> LogRecord {
        LogRecord {
            date: self.date@,
            device: self.device@,
            process: self.process@,
            pid: opt_view(self.pid),
            severity: opt_view(self.severity),
            message: self.message@,
        }
    }
}

impl<'a> Default for LogsData<'a> {
    /// The empty record.
    fn default() -> (record: LogsData<'a>)
        ensures
            record@ == LogRecord::empty(),
    {
        proof {
            reveal_strlit("");
        }
        let record = LogsData {
            date: "",
            device: "",
            process: "",
            pid: None,
            severity: None,
            message: "",
        };
        assert(record.date@ =~= Seq::empty());
        record
    }
}

/// Whether two optional string slices hold the same characters, or are both
/// absent.
fn opt_str_eq(a: Option<&str>, b: Option<&str>) -> (same: bool)
    ensures
        same == (opt_view(a) == opt_view(b)),
{
    match (a, b) {
        (Some(x), Some(y)) => str_eq(x, y),
        (None, None) => true,
        _ => false,
    }
}

impl<'a> PartialEq for LogsData<'a> {
    fn eq(&self, other: &LogsData<'a>) -> (same: bool) {
        str_eq(self.date, other.date) && str_eq(self.device, other.device) && str_eq(
            self.process,
            other.process,
        ) && opt_str_eq(self.pid, other.pid) && opt_str_eq(self.severity, other.severity)
            && str_eq(self.message, other.message)
    }
}

impl<'a> PartialEqSpecImpl for LogsData<'a> {
    open spec fn obeys_eq_spec() -> bool {
        true
    }

    open spec fn eq_spec(&self, other: &LogsData<'a>) -> bool {
        self@ == other@
    }
}

impl<'a> LogsData<'a> {
    /// Whether every field is empty, that is, whether the record stands for
    /// a dropped line.
    pub fn is_default(&self) -> (empty: bool)
        ensures
            empty == self@.is_empty(),
    {
        let empty = self.date.is_empty() && self.device.is_empty() && self.process.is_empty()
            && self.pid.is_none() && self.severity.is_none() && self.message.is_empty();
        proof {
            if empty {
                assert(self.date@ =~= Seq::empty());
                assert(self.device@ =~= Seq::empty());
                assert(self.process@ =~= Seq::empty());
                assert(self.message@ =~= Seq::empty());
            }
        }
        empty
    }
}

} // verus!

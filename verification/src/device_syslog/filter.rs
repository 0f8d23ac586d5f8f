//! The filters that decide which log records are delivered.
use vstd::prelude::*;
use crate::device_syslog::record::{LogRecord, LogsData};
use crate::text::{is_substring, str_contains, str_eq};

verus! {

/// The names of the daemons whose records the quiet filter drops.
pub open spec fn quiet_processes() -> Seq<&'static str> {
    seq![
        "CircleJoinRequested",
        "CommCenter",
        "HeuristicInterpreter",
        "MobileMail",
        "PowerUIAgent",
        "ProtectedCloudKeySyncing",
        "SpringBoard",
        "UserEventAgent",
        "WirelessRadioManagerd",
        "accessoryd",
        "accountsd",
        "aggregated",
        "analyticsd",
        "appstored",
        "apsd",
        "assetsd",
        "assistant_service",
        "backboardd",
        "biometrickitd",
        "bluetoothd",
        "calaccessd",
        "callservicesd",
        "cloudd",
        "com.apple.Safari.SafeBrowsing.Service",
        "contextstored",
        "corecaptured",
        "coreduetd",
        "corespeechd",
        "cdpd",
        "dasd",
        "dataaccessd",
        "distnoted",
        "dprivacyd",
        "duetexpertd",
        "findmydeviced",
        "fmfd",
        "fmflocatord",
        "gpsd",
        "healthd",
        "homed",
        "identityservicesd",
        "imagent",
        "itunescloudd",
        "itunesstored",
        "kernel",
        "locationd",
        "maild",
        "mDNSResponder",
        "mediaremoted",
        "mediaserverd",
        "mobileassetd",
        "nanoregistryd",
        "nanotimekitcompaniond",
        "navd",
        "nsurlsessiond",
        "passd",
        "pasted",
        "photoanalysisd",
        "powerd",
        "powerlogHelperd",
        "ptpd",
        "rapportd",
        "remindd",
        "routined",
        "runningboardd",
        "searchd",
        "sharingd",
        "suggestd",
        "symptomsd",
        "timed",
        "thermalmonitord",
        "useractivityd",
        "vmd",
        "wifid",
        "wirelessproxd",
    ]
}

/// Whether `process` is exactly the name of one of the quiet daemons.
pub open spec fn is_quiet_process(process: Seq<char>) -> bool {
    exists|i: int| 0 <= i < quiet_processes().len() && (#[trigger] quiet_processes()[i])@ == process
}

/// The quiet daemons' names, as the quiet filter walks them.
pub fn quiet_list() -> (names: Vec<&'static str>)
    ensures
        names@ == quiet_processes(),
{
    vec![
        "CircleJoinRequested",
        "CommCenter",
        "HeuristicInterpreter",
        "MobileMail",
        "PowerUIAgent",
        "ProtectedCloudKeySyncing",
        "SpringBoard",
        "UserEventAgent",
        "WirelessRadioManagerd",
        "accessoryd",
        "accountsd",
        "aggregated",
        "analyticsd",
        "appstored",
        "apsd",
        "assetsd",
        "assistant_service",
        "backboardd",
        "biometrickitd",
        "bluetoothd",
        "calaccessd",
        "callservicesd",
        "cloudd",
        "com.apple.Safari.SafeBrowsing.Service",
        "contextstored",
        "corecaptured",
        "coreduetd",
        "corespeechd",
        "cdpd",
        "dasd",
        "dataaccessd",
        "distnoted",
        "dprivacyd",
        "duetexpertd",
        "findmydeviced",
        "fmfd",
        "fmflocatord",
        "gpsd",
        "healthd",
        "homed",
        "identityservicesd",
        "imagent",
        "itunescloudd",
        "itunesstored",
        "kernel",
        "locationd",
        "maild",
        "mDNSResponder",
        "mediaremoted",
        "mediaserverd",
        "mobileassetd",
        "nanoregistryd",
        "nanotimekitcompaniond",
        "navd",
        "nsurlsessiond",
        "passd",
        "pasted",
        "photoanalysisd",
        "powerd",
        "powerlogHelperd",
        "ptpd",
        "rapportd",
        "remindd",
        "routined",
        "runningboardd",
        "searchd",
        "sharingd",
        "suggestd",
        "symptomsd",
        "timed",
        "thermalmonitord",
        "useractivityd",
        "vmd",
        "wifid",
        "wirelessproxd",
    ]
}

/// The characters of each of a list of names.
pub open spec fn names_view(names: Seq<String>) -> Seq<Seq<char>> {
    names.map_values(|name: String| name@)
}

/// The mathematical value of a filter: its kind and its patterns as
/// sequences of characters.
pub enum FilterSpec {
    Match(Seq<char>),
    Trigger(Seq<char>),
    Untrigger(Seq<char>),
    Process(Seq<Seq<char>>),
    Exclude(Seq<Seq<char>>),
    Quiet,
    KernelOnly,
    NoKernel,
    Nothing,
}

/// Whether some name of `names` does not occur in `process`.
pub open spec fn some_name_missing(names: Seq<Seq<char>>, process: Seq<char>) -> bool {
    exists|i: int| 0 <= i < names.len() && !is_substring(#[trigger] names[i], process)
}

/// Whether some name of `names` occurs in `process`.
pub open spec fn some_name_present(names: Seq<Seq<char>>, process: Seq<char>) -> bool {
    exists|i: int| 0 <= i < names.len() && is_substring(#[trigger] names[i], process)
}

impl FilterSpec {
    /// Every kind but the reserved `Trigger` is supported. The reserved
    /// kind passes no record: it stops every chunk at its first record.
    pub open spec fn is_supported(self) -> bool {
        !(self is Trigger)
    }

    /// Whether the filter replaces `record` by the empty record.
    pub open spec fn drops(self, record: LogRecord) -> bool {
        match self {
            FilterSpec::Match(pattern) => !is_substring(pattern, record.message),
            FilterSpec::Trigger(_) => false,
            FilterSpec::Untrigger(_) => false,
            FilterSpec::Process(names) => some_name_missing(names, record.process),
            FilterSpec::Exclude(names) => some_name_present(names, record.process),
            FilterSpec::Quiet => is_quiet_process(record.process),
            FilterSpec::KernelOnly => !is_substring("kernel"@, record.process),
            FilterSpec::NoKernel => is_substring("kernel"@, record.process),
            FilterSpec::Nothing => false,
        }
    }

    /// Whether `record` has passed the filter's look and the lines that
    /// follow it in its chunk are still to be looked at. `Untrigger` says
    /// no on the first record whose message holds its pattern. The
    /// reserved `Trigger` is not supported and says no on every record.
    pub open spec fn continues(self, record: LogRecord) -> bool {
        match self {
            FilterSpec::Untrigger(pattern) => !is_substring(pattern, record.message),
            FilterSpec::Trigger(_) => false,
            _ => true,
        }
    }

    /// The record that the filter leaves in place of `record`.
    pub open spec fn apply(self, record: LogRecord) -> LogRecord {
        if self.drops(record) {
            LogRecord::empty()
        } else {
            record
        }
    }
}

/// A filter over log records. One filter is active at a time.
#[derive(Debug, Clone, PartialEq, Eq)]
pub enum LogFilter {
    /// Keeps the records whose message holds the pattern.
    Match(String),
    /// Reserved and not supported: it passes no record.
    Trigger(String),
    /// Stops the chunk at the first record whose message holds the pattern.
    Untrigger(String),
    /// Keeps the records whose process name holds every one of the names.
    Process(Vec<String>),
    /// Drops the records whose process name holds one of the names.
    Exclude(Vec<String>),
    /// Drops the records of the quiet daemons.
    Quiet,
    /// Keeps the records whose process name holds `kernel`.
    KernelOnly,
    /// Drops the records whose process name holds `kernel`.
    NoKernel,
    /// Keeps every record.
    Nothing,
}

impl View for LogFilter {
    type V = FilterSpec;

    open spec fn view(&self) -> FilterSpec {
        match self {
            LogFilter::Match(pattern) => FilterSpec::Match(pattern@),
            LogFilter::Trigger(pattern) => FilterSpec::Trigger(pattern@),
            LogFilter::Untrigger(pattern) => FilterSpec::Untrigger(pattern@),
            LogFilter::Process(names) => FilterSpec::Process(names_view(names@)),
            LogFilter::Exclude(names) => FilterSpec::Exclude(names_view(names@)),
            LogFilter::Quiet => FilterSpec::Quiet,
            LogFilter::KernelOnly => FilterSpec::KernelOnly,
            LogFilter::NoKernel => FilterSpec::NoKernel,
            LogFilter::Nothing => FilterSpec::Nothing,
        }
    }
}

/// Whether some name of `names` does not occur in `process`.
fn any_name_missing(names: &Vec<String>, process: &str) -> (missing: bool)
    ensures
        missing == some_name_missing(names_view(names@), process@),
{
    let mut i: usize = 0;
    while i < names.len()
        invariant
            i <= names.len(),
            forall|k: int| 0 <= k < i ==> is_substring(#[trigger] names_view(names@)[k], process@),
        decreases names.len() - i,
    {
        if !str_contains(process, names[i].as_str()) {
            assert(!is_substring(names_view(names@)[i as int], process@));
            return true;
        }
        i += 1;
    }
    false
}

/// Whether some name of `names` occurs in `process`.
fn any_name_present(names: &Vec<String>, process: &str) -> (present: bool)
    ensures
        present == some_name_present(names_view(names@), process@),
{
    let mut i: usize = 0;
    while i < names.len()
        invariant
            i <= names.len(),
            forall|k: int| 0 <= k < i ==> !is_substring(#[trigger] names_view(names@)[k], process@),
        decreases names.len() - i,
    {
        if str_contains(process, names[i].as_str()) {
            assert(is_substring(names_view(names@)[i as int], process@));
            return true;
        }
        i += 1;
    }
    false
}

/// Whether `process` is exactly the name of one of the quiet daemons.
pub fn is_quiet(process: &str) -> (quiet: bool)
    ensures
        quiet == is_quiet_process(process@),
{
    let names = quiet_list();
    let mut i: usize = 0;
    while i < names.len()
        invariant
            i <= names.len(),
            names@ == quiet_processes(),
            forall|k: int| 0 <= k < i ==> (#[trigger] quiet_processes()[k])@ != process@,
        decreases names.len() - i,
    {
        if str_eq(names[i], process) {
            assert(quiet_processes()[i as int]@ == process@);
            return true;
        }
        i += 1;
    }
    false
}

/// A copy of a list of names.
fn copy_names(names: &Vec<String>) -> (copy: Vec<String>)
    ensures
        copy@ == names@,
{
    let mut copy: Vec<String> = Vec::new();
    let mut i: usize = 0;
    while i < names.len()
        invariant
            i <= names.len(),
            copy@ == names@.take(i as int),
        decreases names.len() - i,
    {
        let name = names[i].clone();
        assert(copy@.push(name) =~= names@.take(i + 1));
        copy.push(name);
        i += 1;
    }
    assert(names@.take(i as int) =~= names@);
    copy
}

impl LogFilter {
    /// A copy of the filter, with the same kind and patterns.
    pub fn duplicate(&self) -> (copy: LogFilter)
        ensures
            copy@ == self@,
    {
        match self {
            LogFilter::Match(pattern) => LogFilter::Match(pattern.clone()),
            LogFilter::Trigger(pattern) => LogFilter::Trigger(pattern.clone()),
            LogFilter::Untrigger(pattern) => LogFilter::Untrigger(pattern.clone()),
            LogFilter::Process(names) => LogFilter::Process(copy_names(names)),
            LogFilter::Exclude(names) => LogFilter::Exclude(copy_names(names)),
            LogFilter::Quiet => LogFilter::Quiet,
            LogFilter::KernelOnly => LogFilter::KernelOnly,
            LogFilter::NoKernel => LogFilter::NoKernel,
            LogFilter::Nothing => LogFilter::Nothing,
        }
    }

    /// Whether the filter is supported: every kind but `Trigger`.
    pub fn is_supported(&self) -> (supported: bool)
        ensures
            supported == self@.is_supported(),
    {
        match self {
            LogFilter::Trigger(_) => false,
            _ => true,
        }
    }

    /// Whether the filter replaces `record` by the empty record.
    fn drops(&self, record: &LogsData) -> (dropped: bool)
        ensures
            dropped == self@.drops(record@),
    {
        match self {
            LogFilter::Match(pattern) => !str_contains(record.message, pattern.as_str()),
            LogFilter::Trigger(_) => false,
            LogFilter::Untrigger(_) => false,
            LogFilter::Process(names) => any_name_missing(names, record.process),
            LogFilter::Exclude(names) => any_name_present(names, record.process),
            LogFilter::Quiet => is_quiet(record.process),
            LogFilter::KernelOnly => !str_contains(record.process, "kernel"),
            LogFilter::NoKernel => str_contains(record.process, "kernel"),
            LogFilter::Nothing => false,
        }
    }

    /// Applies the filter to one record, in place, and says whether the
    /// rest of the record's chunk is still to be processed.
    ///
    /// A record that the filter rejects is replaced by the empty record.
    /// `Untrigger` leaves every record as it is and answers `false` on a
    /// record whose message holds its pattern. The reserved `Trigger` is
    /// not supported: it leaves the record as it is and answers `false`,
    /// so that no record counts as having passed it.
    pub fn apply_and_is_okay_to_continue(&self, logs_data: &mut LogsData) -> (proceed: bool)
        ensures
            proceed == self@.continues(old(logs_data)@),
            final(logs_data)@ == self@.apply(old(logs_data)@),
            !self@.is_supported() ==> !proceed && final(logs_data)@ == old(logs_data)@,
    {
        if self.drops(logs_data) {
            *logs_data = LogsData::default();
        }
        match self {
            LogFilter::Untrigger(pattern) => !str_contains(logs_data.message, pattern.as_str()),
            LogFilter::Trigger(_) => false,
            _ => true,
        }
    }
}

/// The reserved trigger filter is not supported: it leaves every record
/// as it is and lets none pass.
pub proof fn trigger_passes_no_record(pattern: Seq<char>, record: LogRecord)
    ensures
        !FilterSpec::Trigger(pattern).is_supported(),
        !FilterSpec::Trigger(pattern).continues(record),
        FilterSpec::Trigger(pattern).apply(record) == record,
{
}

/// The match filter keeps a record whose message holds the pattern as
/// it is, empties every other record, and never stops the chunk.
pub proof fn match_keeps_what_holds_the_pattern(pattern: Seq<char>, record: LogRecord)
    ensures
        FilterSpec::Match(pattern).continues(record),
        is_substring(pattern, record.message) ==> FilterSpec::Match(pattern).apply(record)
            == record,
        !is_substring(pattern, record.message) ==> FilterSpec::Match(pattern).apply(record)
            == LogRecord::empty(),
{
}

/// The quiet filter empties a record exactly where the record's process
/// is, as a whole, the name of a quiet daemon. A process name that only
/// holds such a name as a part is left as it is. The filter never stops
/// the chunk.
pub proof fn quiet_drops_exact_names_only(record: LogRecord)
    ensures
        FilterSpec::Quiet.continues(record),
        is_quiet_process(record.process) ==> FilterSpec::Quiet.apply(record)
            == LogRecord::empty(),
        !is_quiet_process(record.process) ==> FilterSpec::Quiet.apply(record) == record,
{
}

/// Every name of the quiet list is the name of a quiet daemon.
pub proof fn quiet_list_is_quiet(i: int)
    requires
        0 <= i < quiet_processes().len(),
    ensures
        is_quiet_process(quiet_processes()[i]@),
{
}

/// The two kernel filters decide against each other: on every record,
/// one of them empties it and the other leaves it as it is.
pub proof fn kernel_filters_decide_opposite(record: LogRecord)
    ensures
        FilterSpec::KernelOnly.drops(record) <==> !FilterSpec::NoKernel.drops(record),
        FilterSpec::KernelOnly.continues(record),
        FilterSpec::NoKernel.continues(record),
{
}

/// Of a record that is not empty, the kernel-only filter leaves
/// something to deliver exactly where the no-kernel filter leaves
/// nothing. (The empty record is delivered under neither.)
pub proof fn kernel_filters_are_complements(record: LogRecord)
    requires
        !record.is_empty(),
    ensures
        !FilterSpec::KernelOnly.apply(record).is_empty() <==> FilterSpec::NoKernel.apply(
            record,
        ).is_empty(),
{
}

} // verus!

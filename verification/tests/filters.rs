use rsmobiledevice::device_syslog::filter::{is_quiet, quiet_list, LogFilter};
use rsmobiledevice::device_syslog::record::LogsData;

fn record(process: &'static str, message: &'static str) -> LogsData<'static> {
    LogsData {
        date: "Jan  1 00:00:01",
        device: "iPhone",
        process,
        pid: Some("1"),
        severity: Some("Notice"),
        message,
    }
}

fn strings(names: &[&str]) -> Vec<String> {
    names.iter().map(|name| name.to_string()).collect()
}

#[test]
fn match_keeps_a_message_with_the_pattern() {
    let mut data = record("app", "a foo b");
    let proceed = LogFilter::Match("foo".to_string()).apply_and_is_okay_to_continue(&mut data);
    assert!(proceed);
    assert!(data == record("app", "a foo b"));
}

#[test]
fn match_empties_a_message_without_the_pattern() {
    let mut data = record("foo", "nothing here");
    let proceed = LogFilter::Match("foo".to_string()).apply_and_is_okay_to_continue(&mut data);
    assert!(proceed);
    assert!(data == LogsData::default());
}

#[test]
fn untrigger_goes_on_without_the_pattern() {
    let mut data = record("app", "all fine");
    let proceed = LogFilter::Untrigger("bar".to_string()).apply_and_is_okay_to_continue(&mut data);
    assert!(proceed);
    assert!(data == record("app", "all fine"));
}

#[test]
fn untrigger_stops_on_the_pattern_and_leaves_the_record() {
    let mut data = record("app", "crow bar");
    let proceed = LogFilter::Untrigger("bar".to_string()).apply_and_is_okay_to_continue(&mut data);
    assert!(!proceed);
    assert!(data == record("app", "crow bar"));
}

#[test]
fn process_keeps_a_name_that_holds_every_entry() {
    let filter = LogFilter::Process(strings(&["Spring", "Board"]));
    let mut data = record("SpringBoard", "m");
    assert!(filter.apply_and_is_okay_to_continue(&mut data));
    assert!(data == record("SpringBoard", "m"));
}

#[test]
fn process_empties_a_name_that_lacks_one_entry() {
    let filter = LogFilter::Process(strings(&["Spring", "kernel"]));
    let mut data = record("SpringBoard", "m");
    assert!(filter.apply_and_is_okay_to_continue(&mut data));
    assert!(data == LogsData::default());
    let mut other = record("kernel", "m");
    assert!(filter.apply_and_is_okay_to_continue(&mut other));
    assert!(other == LogsData::default());
}

#[test]
fn process_without_entries_keeps_everything() {
    let filter = LogFilter::Process(Vec::new());
    let mut data = record("anything", "m");
    assert!(filter.apply_and_is_okay_to_continue(&mut data));
    assert!(data == record("anything", "m"));
}

#[test]
fn exclude_empties_a_name_that_holds_one_entry() {
    let filter = LogFilter::Exclude(strings(&["mail", "Board"]));
    let mut data = record("SpringBoard", "m");
    assert!(filter.apply_and_is_okay_to_continue(&mut data));
    assert!(data == LogsData::default());
}

#[test]
fn exclude_keeps_a_name_that_holds_no_entry() {
    let filter = LogFilter::Exclude(strings(&["mail", "kernel"]));
    let mut data = record("SpringBoard", "m");
    assert!(filter.apply_and_is_okay_to_continue(&mut data));
    assert!(data == record("SpringBoard", "m"));
    let mut all = record("SpringBoard", "m");
    assert!(LogFilter::Exclude(Vec::new()).apply_and_is_okay_to_continue(&mut all));
    assert!(all == record("SpringBoard", "m"));
}

#[test]
fn quiet_empties_an_exact_name() {
    let mut data = record("SpringBoard", "m");
    assert!(LogFilter::Quiet.apply_and_is_okay_to_continue(&mut data));
    assert!(data == LogsData::default());
}

#[test]
fn quiet_keeps_a_name_that_only_holds_a_quiet_name() {
    for process in ["SpringBoardX", "kernel(AppleBCMWLANCore)", "xkernel", "springboard", "apsd "] {
        let mut data = record(process, "m");
        assert!(LogFilter::Quiet.apply_and_is_okay_to_continue(&mut data));
        assert!(data == record(process, "m"));
    }
}

#[test]
fn quiet_list_has_seventy_five_names_and_each_is_quiet() {
    let names = quiet_list();
    assert_eq!(names.len(), 75);
    assert_eq!(names[0], "CircleJoinRequested");
    assert_eq!(names[44], "kernel");
    assert_eq!(names[74], "wirelessproxd");
    for name in names {
        assert!(is_quiet(name));
        let mut data = record(name, "m");
        assert!(LogFilter::Quiet.apply_and_is_okay_to_continue(&mut data));
        assert!(data.is_default());
    }
    assert!(!is_quiet(""));
    assert!(!is_quiet("Finder"));
}

#[test]
fn kernel_only_keeps_kernel_records() {
    let mut kept = record("kernel(AppleBCMWLANCore)", "m");
    assert!(LogFilter::KernelOnly.apply_and_is_okay_to_continue(&mut kept));
    assert!(kept == record("kernel(AppleBCMWLANCore)", "m"));
    let mut dropped = record("SpringBoard", "kernel panic");
    assert!(LogFilter::KernelOnly.apply_and_is_okay_to_continue(&mut dropped));
    assert!(dropped == LogsData::default());
}

#[test]
fn no_kernel_drops_kernel_records() {
    let mut dropped = record("kernel(AppleBCMWLANCore)", "m");
    assert!(LogFilter::NoKernel.apply_and_is_okay_to_continue(&mut dropped));
    assert!(dropped == LogsData::default());
    let mut kept = record("SpringBoard", "kernel panic");
    assert!(LogFilter::NoKernel.apply_and_is_okay_to_continue(&mut kept));
    assert!(kept == record("SpringBoard", "kernel panic"));
}

#[test]
fn kernel_filters_are_complements_on_records() {
    for process in ["kernel", "kernel(x)", "mykernel", "Kernel", "SpringBoard", "kerne", "k"] {
        let mut only = record(process, "m");
        let mut none = record(process, "m");
        assert!(LogFilter::KernelOnly.apply_and_is_okay_to_continue(&mut only));
        assert!(LogFilter::NoKernel.apply_and_is_okay_to_continue(&mut none));
        assert_eq!(!only.is_default(), none.is_default());
    }
}

#[test]
fn empty_record_stays_empty_under_both_kernel_filters() {
    let mut only = LogsData::default();
    let mut none = LogsData::default();
    assert!(LogFilter::KernelOnly.apply_and_is_okay_to_continue(&mut only));
    assert!(LogFilter::NoKernel.apply_and_is_okay_to_continue(&mut none));
    assert!(only.is_default());
    assert!(none.is_default());
}

#[test]
fn nothing_keeps_everything() {
    let mut data = record("SpringBoard", "m");
    assert!(LogFilter::Nothing.apply_and_is_okay_to_continue(&mut data));
    assert!(data == record("SpringBoard", "m"));
    let mut empty = LogsData::default();
    assert!(LogFilter::Nothing.apply_and_is_okay_to_continue(&mut empty));
    assert!(empty.is_default());
}

#[test]
fn trigger_leaves_the_record_and_lets_nothing_pass() {
    let filter = LogFilter::Trigger("foo".to_string());
    for message in ["a foo b", "nothing here", ""] {
        let mut data = record("SpringBoard", message);
        let proceed = filter.apply_and_is_okay_to_continue(&mut data);
        assert!(!proceed);
        assert!(data == record("SpringBoard", message));
    }
    let mut empty = LogsData::default();
    assert!(!filter.apply_and_is_okay_to_continue(&mut empty));
    assert!(empty.is_default());
}

#[test]
fn only_trigger_is_unsupported() {
    assert!(!LogFilter::Trigger("x".to_string()).is_supported());
    assert!(LogFilter::Match("x".to_string()).is_supported());
    assert!(LogFilter::Untrigger("x".to_string()).is_supported());
    assert!(LogFilter::Process(Vec::new()).is_supported());
    assert!(LogFilter::Exclude(Vec::new()).is_supported());
    assert!(LogFilter::Quiet.is_supported());
    assert!(LogFilter::KernelOnly.is_supported());
    assert!(LogFilter::NoKernel.is_supported());
    assert!(LogFilter::Nothing.is_supported());
}

#[test]
fn a_copy_is_the_same_filter() {
    let filters = vec![
        LogFilter::Match("a".to_string()),
        LogFilter::Trigger("b".to_string()),
        LogFilter::Untrigger("c".to_string()),
        LogFilter::Process(strings(&["d", "e"])),
        LogFilter::Exclude(strings(&["f"])),
        LogFilter::Quiet,
        LogFilter::KernelOnly,
        LogFilter::NoKernel,
        LogFilter::Nothing,
    ];
    for filter in filters {
        assert_eq!(filter.duplicate(), filter);
    }
}

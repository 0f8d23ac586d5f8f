use rsmobiledevice::device_syslog::format::{get_parsed_log, get_parsed_log_colored};
use rsmobiledevice::device_syslog::record::LogsData;

fn full() -> LogsData<'static> {
    LogsData {
        date: "Jan  1 00:00:01",
        device: "iPhone",
        process: "SpringBoard",
        pid: Some("123"),
        severity: Some("Notice"),
        message: "hello",
    }
}

#[test]
fn default_record_is_empty() {
    let record = LogsData::default();
    assert_eq!(record.date, "");
    assert_eq!(record.device, "");
    assert_eq!(record.process, "");
    assert_eq!(record.pid, None);
    assert_eq!(record.severity, None);
    assert_eq!(record.message, "");
    assert!(record.is_default());
}

#[test]
fn record_with_any_field_is_not_empty() {
    assert!(!full().is_default());
    assert!(!LogsData { date: "x", ..LogsData::default() }.is_default());
    assert!(!LogsData { device: "x", ..LogsData::default() }.is_default());
    assert!(!LogsData { process: "x", ..LogsData::default() }.is_default());
    assert!(!LogsData { pid: Some(""), ..LogsData::default() }.is_default());
    assert!(!LogsData { severity: Some(""), ..LogsData::default() }.is_default());
    assert!(!LogsData { message: "x", ..LogsData::default() }.is_default());
}

#[test]
fn records_are_equal_field_by_field() {
    assert!(full() == full());
    assert!(full() != LogsData::default());
    assert!(full() != LogsData { pid: None, ..full() });
    assert!(full() != LogsData { severity: Some("Error"), ..full() });
    assert!(full() != LogsData { message: "hello ", ..full() });
    assert!(LogsData::default() == LogsData::default());
}

#[test]
fn plain_line_has_every_field() {
    assert_eq!(
        get_parsed_log(&full()),
        "[Jan  1 00:00:01] iPhone SpringBoard [123] <Notice>: hello"
    );
}

#[test]
fn plain_line_writes_none_for_absent_fields() {
    let record = LogsData { pid: None, severity: None, ..full() };
    assert_eq!(
        get_parsed_log(&record),
        "[Jan  1 00:00:01] iPhone SpringBoard [None] <None>: hello"
    );
}

#[test]
fn plain_line_of_the_empty_record() {
    assert_eq!(get_parsed_log(&LogsData::default()), "[]   [None] <None>: ");
}

#[test]
fn coloured_line_colours_each_field() {
    assert_eq!(
        get_parsed_log_colored(&full()),
        "[\x1b[34mJan  1 00:00:01\x1b[0m] \x1b[32miPhone\x1b[0m \x1b[36mSpringBoard\x1b[0m [123] <\x1b[31mNotice\x1b[0m>: hello"
    );
}

#[test]
fn coloured_line_writes_none_for_absent_fields() {
    let record = LogsData { pid: None, severity: None, ..full() };
    assert_eq!(
        get_parsed_log_colored(&record),
        "[\x1b[34mJan  1 00:00:01\x1b[0m] \x1b[32miPhone\x1b[0m \x1b[36mSpringBoard\x1b[0m [None] <\x1b[31mNone\x1b[0m>: hello"
    );
}

#[test]
fn coloured_line_leaves_the_message_in_the_default_colour() {
    let line = get_parsed_log_colored(&full());
    assert!(line.starts_with(
        "[\x1b[34mJan  1 00:00:01\x1b[0m] \x1b[32miPhone\x1b[0m \x1b[36mSpringBoard\x1b[0m [123] <\x1b[31mNotice\x1b[0m>: "
    ));
    assert!(line.ends_with("\x1b[0m>: hello"));
    assert_eq!(line.matches('\x1b').count(), 8);
}

use rsmobiledevice::device_syslog::filter::LogFilter;
use rsmobiledevice::device_syslog::record::LogsData;
use rsmobiledevice::device_syslog::worker::{
    deliver, process_chunk, LogSink, LogWorker, LoggerCommand, WorkerAction, CHUNK_SIZE,
    FALLBACK_LOG_FILE, RETRY_DELAY_SECS,
};
use rsmobiledevice::errors::DeviceSysLogError;

fn record(process: &'static str, message: &'static str) -> LogsData<'static> {
    LogsData { date: "d", device: "iPhone", process, pid: None, severity: None, message }
}

#[test]
fn quiet_chunk_delivers_only_the_line_of_the_loud_process() {
    let chunk = "Jan 1 00:00:01 iPhone SpringBoard[123]: hello\nJan 1 00:00:02 iPhone kernel: ping\n";
    let out = process_chunk(&LogFilter::Quiet, chunk);
    assert_eq!(out.len(), 1);
    assert_eq!(out[0].date, "Jan 1 00:00:02");
    assert_eq!(out[0].device, "iPhone");
    assert_eq!(out[0].process, "kernel: pin");
    assert_eq!(out[0].message, "g");
}

#[test]
fn quiet_chunk_drops_the_kernel_itself() {
    let chunk = "Jan 1 00:00:01 iPhone kernel[0] <Notice>: ping\nJan 1 00:00:02 iPhone Finder[7] <Notice>: pong\n";
    let out = process_chunk(&LogFilter::Quiet, chunk);
    assert_eq!(out.len(), 1);
    assert_eq!(out[0].process, "Finder");
    assert_eq!(out[0].message, "pong");
}

#[test]
fn chunk_without_filter_delivers_every_line_that_parses() {
    let chunk = "Jan 1 00:00:01 iPhone a[1] <Notice>: one\ngarbage\n\nJan 1 00:00:02 iPhone b[2] <Error>: two";
    let out = process_chunk(&LogFilter::Nothing, chunk);
    assert_eq!(out.len(), 2);
    assert_eq!(out[0].message, "one");
    assert_eq!(out[1].message, "two");
    assert_eq!(out[1].severity, Some("Error"));
}

#[test]
fn nul_padding_round_a_line_is_not_read() {
    let chunk = "\0\0Jan 1 00:00:01 iPhone a[1] <Notice>: one\0\n";
    let out = process_chunk(&LogFilter::Nothing, chunk);
    assert_eq!(out.len(), 1);
    assert_eq!(out[0].date, "Jan 1 00:00:01");
    assert_eq!(out[0].message, "one");
}

#[test]
fn untrigger_stops_the_rest_of_the_chunk() {
    let chunk = "Jan 1 00:00:01 iPhone a[1] <Notice>: one\nJan 1 00:00:02 iPhone b[2] <Notice>: crow bar\nJan 1 00:00:03 iPhone c[3] <Notice>: three\n";
    let out = process_chunk(&LogFilter::Untrigger("bar".to_string()), chunk);
    assert_eq!(out.len(), 1);
    assert_eq!(out[0].message, "one");
}

#[test]
fn untrigger_without_a_hit_delivers_the_whole_chunk() {
    let chunk = "Jan 1 00:00:01 iPhone a[1] <Notice>: one\nJan 1 00:00:03 iPhone c[3] <Notice>: three\n";
    let out = process_chunk(&LogFilter::Untrigger("bar".to_string()), chunk);
    assert_eq!(out.len(), 2);
    assert_eq!(out[1].message, "three");
}

#[test]
fn empty_chunk_delivers_nothing() {
    assert!(process_chunk(&LogFilter::Nothing, "").is_empty());
    assert!(process_chunk(&LogFilter::Nothing, "\n\n").is_empty());
}

#[test]
fn deliver_passes_over_emptied_records_and_keeps_the_order() {
    let records = vec![record("a", "x foo"), record("b", "none"), record("c", "foo y")];
    let out = deliver(&LogFilter::Match("foo".to_string()), &records);
    assert_eq!(out.len(), 2);
    assert!(out[0] == record("a", "x foo"));
    assert!(out[1] == record("c", "foo y"));
}

#[test]
fn deliver_passes_over_records_that_were_empty_before() {
    let records = vec![LogsData::default(), record("a", "m"), LogsData::default()];
    let out = deliver(&LogFilter::Nothing, &records);
    assert_eq!(out.len(), 1);
    assert!(out[0] == record("a", "m"));
}

#[test]
fn deliver_stops_at_the_first_untrigger_hit() {
    let records =
        vec![record("a", "one"), record("b", "two"), record("c", "a bar"), record("d", "four")];
    let out = deliver(&LogFilter::Untrigger("bar".to_string()), &records);
    assert_eq!(out.len(), 2);
    assert!(out[0] == record("a", "one"));
    assert!(out[1] == record("b", "two"));
    let first = vec![record("c", "bar"), record("d", "four")];
    assert!(deliver(&LogFilter::Untrigger("bar".to_string()), &first).is_empty());
}

#[test]
fn trigger_delivers_nothing() {
    let filter = LogFilter::Trigger("one".to_string());
    let records = vec![record("a", "one"), record("b", "two")];
    assert!(deliver(&filter, &records).is_empty());
    let chunk = "Jan 1 00:00:01 iPhone a[1] <Notice>: one\nJan 1 00:00:02 iPhone b[2] <Notice>: two\n";
    assert!(process_chunk(&filter, chunk).is_empty());
}

#[test]
fn worker_starts_stopped_and_follows_the_commands() {
    let mut worker = LogWorker::new(LogFilter::Nothing, LogSink::Stdout).unwrap();
    assert_eq!(worker.current_status(), LoggerCommand::StopLogging);
    assert_eq!(worker.poll(Some(LoggerCommand::StartLogging)), WorkerAction::Receive(1024));
    assert_eq!(worker.current_status(), LoggerCommand::StartLogging);
    assert_eq!(worker.poll(None), WorkerAction::Receive(CHUNK_SIZE));
    assert_eq!(worker.poll(Some(LoggerCommand::StartLogging)), WorkerAction::Receive(CHUNK_SIZE));
    assert!(!worker.has_stopped());
    assert_eq!(worker.poll(Some(LoggerCommand::StopLogging)), WorkerAction::Stop);
    assert_eq!(worker.current_status(), LoggerCommand::StopLogging);
    assert!(worker.has_stopped());
    assert_eq!(worker.poll(None), WorkerAction::Stop);
}

#[test]
fn a_worker_that_has_stopped_is_not_started_again() {
    let mut worker = LogWorker::new(LogFilter::Nothing, LogSink::Stdout).unwrap();
    assert_eq!(worker.poll(Some(LoggerCommand::StartLogging)), WorkerAction::Receive(1024));
    assert_eq!(worker.poll(Some(LoggerCommand::StopLogging)), WorkerAction::Stop);
    assert_eq!(worker.poll(Some(LoggerCommand::StartLogging)), WorkerAction::Stop);
    assert_eq!(worker.current_status(), LoggerCommand::StopLogging);
    assert!(worker.has_stopped());
}

#[test]
fn a_worker_that_finds_no_command_at_first_stops() {
    let mut worker = LogWorker::new(LogFilter::Nothing, LogSink::Stdout).unwrap();
    assert!(!worker.has_stopped());
    assert_eq!(worker.poll(None), WorkerAction::Stop);
    assert!(worker.has_stopped());
    assert_eq!(worker.poll(Some(LoggerCommand::StartLogging)), WorkerAction::Stop);
}

#[test]
fn stop_sent_during_a_receive_is_seen_at_the_next_look() {
    let mut worker = LogWorker::new(LogFilter::Nothing, LogSink::Stdout).unwrap();
    assert_eq!(worker.poll(Some(LoggerCommand::StartLogging)), WorkerAction::Receive(1024));
    let lines = worker.handle_chunk(b"Jan 1 00:00:01 iPhone a[1] <Notice>: one\n");
    assert_eq!(lines.len(), 1);
    assert_eq!(worker.current_status(), LoggerCommand::StartLogging);
    assert_eq!(worker.poll(Some(LoggerCommand::StopLogging)), WorkerAction::Stop);
}

#[test]
fn worker_refuses_the_trigger_filter() {
    let refused = LogWorker::new(LogFilter::Trigger("x".to_string()), LogSink::Stdout);
    assert_eq!(refused.unwrap_err(), DeviceSysLogError::UnsupportedFilter);
    assert_eq!(
        DeviceSysLogError::UnsupportedFilter.message(),
        "the trigger filter is not supported"
    );
}

#[test]
fn worker_keeps_its_filter_and_sink() {
    let worker =
        LogWorker::new(LogFilter::KernelOnly, LogSink::File("device.log".to_string())).unwrap();
    assert_eq!(worker.get_filter(), &LogFilter::KernelOnly);
    assert_eq!(worker.get_sink(), &LogSink::File("device.log".to_string()));
    assert_eq!(worker.retry_delay(), 1);
    assert_eq!(RETRY_DELAY_SECS, 1);
}

#[test]
fn worker_writes_coloured_lines_to_standard_output() {
    let worker = LogWorker::new(LogFilter::Nothing, LogSink::Stdout).unwrap();
    let lines = worker.handle_chunk(b"Jan 1 00:00:01 iPhone a[1] <Notice>: one\n");
    assert_eq!(
        lines,
        vec!["[\x1b[34mJan 1 00:00:01\x1b[0m] \x1b[32miPhone\x1b[0m \x1b[36ma\x1b[0m [1] <\x1b[31mNotice\x1b[0m>: one"
            .to_string()]
    );
}

#[test]
fn worker_writes_plain_lines_to_a_file() {
    let worker = LogWorker::new(LogFilter::Nothing, LogSink::File("x.log".to_string())).unwrap();
    let lines = worker.handle_chunk(
        b"Jan 1 00:00:01 iPhone a[1] <Notice>: one\nJan 1 00:00:02 iPhone b: two\n",
    );
    assert_eq!(
        lines,
        vec![
            "[Jan 1 00:00:01] iPhone a [1] <Notice>: one".to_string(),
            "[Jan 1 00:00:02] iPhone b: tw [None] <None>: o".to_string(),
        ]
    );
}

#[test]
fn worker_reads_invalid_bytes_as_replacement_characters() {
    let worker = LogWorker::new(LogFilter::Nothing, LogSink::File("x.log".to_string())).unwrap();
    let mut chunk = b"Jan 1 00:00:01 iPhone a[1] <Notice>: caf".to_vec();
    chunk.push(0xC3);
    let lines = worker.handle_chunk(&chunk);
    assert_eq!(lines, vec!["[Jan 1 00:00:01] iPhone a [1] <Notice>: caf\u{fffd}".to_string()]);
}

#[test]
fn worker_decodes_multibyte_text() {
    let worker = LogWorker::new(LogFilter::Nothing, LogSink::File("x.log".to_string())).unwrap();
    let lines = worker.handle_chunk("Jan 1 00:00:01 iPhone a[1] <Notice>: café\n".as_bytes());
    assert_eq!(lines, vec!["[Jan 1 00:00:01] iPhone a [1] <Notice>: café".to_string()]);
}

#[test]
fn worker_applies_its_filter_to_a_chunk() {
    let worker = LogWorker::new(LogFilter::Quiet, LogSink::File("x.log".to_string())).unwrap();
    let out = worker.process(
        "Jan 1 00:00:01 iPhone SpringBoard[123]: hello\nJan 1 00:00:02 iPhone kernel: ping\n",
    );
    assert_eq!(out.len(), 1);
    assert_eq!(out[0].date, "Jan 1 00:00:02");
}

#[test]
fn file_sink_falls_back_when_its_file_cannot_be_opened() {
    let sink = LogSink::File("/no/such/dir/device.log".to_string());
    assert_eq!(sink.target(false), Some("/no/such/dir/device.log"));
    assert_eq!(sink.target(true), Some("temp.log"));
    assert_eq!(FALLBACK_LOG_FILE, "temp.log");
    let line = sink.render(&record("a", "m"));
    assert_eq!(line, "[d] iPhone a [None] <None>: m");
}

#[test]
fn standard_output_has_no_file() {
    assert_eq!(LogSink::Stdout.target(false), None);
    assert_eq!(LogSink::Stdout.target(true), None);
    assert_eq!(
        LogSink::Stdout.render(&record("a", "m")),
        "[\x1b[34md\x1b[0m] \x1b[32miPhone\x1b[0m \x1b[36ma\x1b[0m [None] <\x1b[31mNone\x1b[0m>: m"
    );
}

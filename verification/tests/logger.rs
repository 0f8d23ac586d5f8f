use rsmobiledevice::device::DeviceClient;
use rsmobiledevice::device_syslog::filter::LogFilter;
use rsmobiledevice::device_syslog::logger::DeviceSysLog;
use rsmobiledevice::device_syslog::worker::{LogSink, LoggerCommand, WorkerAction};
use rsmobiledevice::devices_collection::{Device, Devices, SingleDevice};
use rsmobiledevice::errors::DeviceSysLogError;

fn controller() -> DeviceSysLog<SingleDevice> {
    DeviceSysLog::new(DeviceClient::single(Device { udid: "00008110-000A".to_string() }))
}

#[test]
fn new_controller_has_no_command_and_keeps_everything() {
    let log = controller();
    assert!(log.pending_commands().is_empty());
    assert_eq!(log.get_filter(), &LogFilter::Nothing);
    assert_eq!(
        log.get_client().get_devices(),
        &Devices::Single(Device { udid: "00008110-000A".to_string() })
    );
}

#[test]
fn set_filter_replaces_the_filter_only() {
    let mut log = controller();
    log.stop_logging();
    log.set_filter(LogFilter::Quiet);
    assert_eq!(log.get_filter(), &LogFilter::Quiet);
    assert_eq!(log.pending_commands(), &vec![LoggerCommand::StopLogging]);
    log.set_filter(LogFilter::Match("x".to_string()));
    assert_eq!(log.get_filter(), &LogFilter::Match("x".to_string()));
}

#[test]
fn log_to_stdout_sends_start_and_hands_out_a_worker() {
    let mut log = controller();
    log.set_filter(LogFilter::KernelOnly);
    let worker = log.log_to_stdout().unwrap();
    assert_eq!(log.pending_commands(), &vec![LoggerCommand::StartLogging]);
    assert_eq!(worker.current_status(), LoggerCommand::StopLogging);
    assert_eq!(worker.get_filter(), &LogFilter::KernelOnly);
    assert_eq!(worker.get_sink(), &LogSink::Stdout);
}

#[test]
fn log_to_file_sends_start_and_hands_out_a_worker() {
    let mut log = controller();
    let worker = log.log_to_file("device.log").unwrap();
    assert_eq!(log.pending_commands(), &vec![LoggerCommand::StartLogging]);
    assert_eq!(worker.get_filter(), &LogFilter::Nothing);
    assert_eq!(worker.get_sink(), &LogSink::File("device.log".to_string()));
}

#[test]
fn a_running_worker_keeps_the_filter_it_was_started_with() {
    let mut log = controller();
    log.set_filter(LogFilter::Quiet);
    let worker = log.log_to_stdout().unwrap();
    log.set_filter(LogFilter::NoKernel);
    assert_eq!(worker.get_filter(), &LogFilter::Quiet);
    assert_eq!(log.get_filter(), &LogFilter::NoKernel);
}

#[test]
fn start_is_refused_with_the_trigger_filter() {
    let mut log = controller();
    log.set_filter(LogFilter::Trigger("x".to_string()));
    assert_eq!(log.log_to_stdout().unwrap_err(), DeviceSysLogError::UnsupportedFilter);
    assert_eq!(log.log_to_file("a.log").unwrap_err(), DeviceSysLogError::UnsupportedFilter);
    assert!(log.pending_commands().is_empty());
}

#[test]
fn commands_are_taken_in_the_order_sent() {
    let mut log = controller();
    log.stop_logging();
    let _first = log.log_to_stdout().unwrap();
    log.stop_logging();
    assert_eq!(log.take_command(), Some(LoggerCommand::StopLogging));
    assert_eq!(log.take_command(), Some(LoggerCommand::StartLogging));
    assert_eq!(log.take_command(), Some(LoggerCommand::StopLogging));
    assert_eq!(log.take_command(), None);
    assert_eq!(log.take_command(), None);
}

#[test]
fn a_session_runs_from_start_to_stop() {
    let mut log = controller();
    log.set_filter(LogFilter::NoKernel);
    let mut worker = log.log_to_file("session.log").unwrap();
    assert_eq!(worker.poll(log.take_command()), WorkerAction::Receive(1024));
    let lines = worker.handle_chunk(
        b"Jan 1 00:00:01 iPhone kernel[0] <Notice>: a\nJan 1 00:00:02 iPhone app[5] <Notice>: b\n",
    );
    assert_eq!(lines, vec!["[Jan 1 00:00:02] iPhone app [5] <Notice>: b".to_string()]);
    assert_eq!(worker.poll(log.take_command()), WorkerAction::Receive(1024));
    log.stop_logging();
    let more = worker.handle_chunk(b"Jan 1 00:00:03 iPhone app[5] <Notice>: c\n");
    assert_eq!(more.len(), 1);
    assert_eq!(worker.poll(log.take_command()), WorkerAction::Stop);
}

#[test]
fn a_worker_started_after_a_stale_stop_stops_at_once() {
    let mut log = controller();
    log.stop_logging();
    let mut worker = log.log_to_stdout().unwrap();
    assert_eq!(worker.poll(log.take_command()), WorkerAction::Stop);
}

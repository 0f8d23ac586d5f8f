//! The controller of a device's log stream: the active filter and the
//! commands that are under way to the worker.
use vstd::prelude::*;
use std::marker::PhantomData;
use crate::device::DeviceClient;
use crate::device_syslog::filter::{FilterSpec, LogFilter};
use crate::device_syslog::worker::{
    action_for, next_status, LogSink, LogWorker, LoggerCommand, SinkSpec, WorkerAction,
};
use crate::devices_collection::{Devices, SingleDevice};
use crate::errors::DeviceSysLogError;

verus! {

/// The log stream of the devices of a client.
///
/// The controller keeps the filter for the next worker and the command
/// channel: the commands that were sent and that no worker has taken
/// yet, oldest first.
#[derive(Debug)]
pub struct DeviceSysLog<T> {
    devices: DeviceClient<T>,
    pending: Vec<LoggerCommand>,
    filter: LogFilter,
    _phantom: PhantomData<T>,
}

impl<T> DeviceSysLog<T> {
    /// The devices whose log is streamed.
    pub closed spec fn devices(&self) -> Devices {
        self.devices.devices()
    }

    /// The commands that were sent and not yet taken, oldest first.
    pub closed spec fn pending(&self) -> Seq<LoggerCommand> {
        self.pending@
    }

    /// The filter that the next worker starts with.
    pub closed spec fn filter(&self) -> FilterSpec {
        self.filter@
    }

    /// A controller with no command under way and the filter that keeps
    /// every record.
    pub fn new(devices: DeviceClient<T>) -> (log: DeviceSysLog<T>)
        ensures
            log.devices() == devices.devices(),
            log.pending() == Seq::<LoggerCommand>::empty(),
            log.filter() == FilterSpec::Nothing,
    {
        DeviceSysLog { devices, pending: Vec::new(), filter: LogFilter::Nothing, _phantom: PhantomData }
    }

    /// The client of the devices whose log is streamed.
    pub fn get_client(&self) -> (client: &DeviceClient<T>)
        ensures
            client.devices() == self.devices(),
    {
        &self.devices
    }

    /// The filter that the next worker starts with.
    pub fn get_filter(&self) -> (filter: &LogFilter)
        ensures
            filter@ == self.filter(),
    {
        &self.filter
    }

    /// The commands that were sent and not yet taken, oldest first.
    pub fn pending_commands(&self) -> (commands: &Vec<LoggerCommand>)
        ensures
            commands@ == self.pending(),
    {
        &self.pending
    }
}

impl DeviceSysLog<SingleDevice> {
    /// Replaces the filter that the next worker starts with. A worker
    /// that was started before keeps the filter it was started with.
    pub fn set_filter(&mut self, filter: LogFilter)
        ensures
            final(self).filter() == filter@,
            final(self).pending() == old(self).pending(),
            final(self).devices() == old(self).devices(),
    {
        self.filter = filter;
    }

    /// Sends `StartLogging` and hands back the worker to run, which
    /// holds a copy of the active filter and the given sink.
    fn start(&mut self, sink: LogSink) -> (worker: Result<LogWorker, DeviceSysLogError>)
        ensures
            final(self).filter() == old(self).filter(),
            final(self).devices() == old(self).devices(),
            match worker {
                Ok(made) => {
                    &&& old(self).filter().is_supported()
                    &&& final(self).pending() == old(self).pending().push(
                        LoggerCommand::StartLogging,
                    )
                    &&& made.status() == LoggerCommand::StopLogging
                    &&& !made.is_done()
                    &&& made.filter() == old(self).filter()
                    &&& made.sink() == sink@
                },
                Err(error) => {
                    &&& !old(self).filter().is_supported()
                    &&& error == DeviceSysLogError::UnsupportedFilter
                    &&& final(self).pending() == old(self).pending()
                },
            },
    {
        match LogWorker::new(self.filter.duplicate(), sink) {
            Ok(worker) => {
                self.pending.push(LoggerCommand::StartLogging);
                Ok(worker)
            },
            Err(error) => Err(error),
        }
    }

    /// Starts logging to standard output, in coloured lines.
    ///
    /// Sends `StartLogging` and hands back the worker to run. With the
    /// reserved `Trigger` filter active nothing is sent and the start is
    /// refused.
    pub fn log_to_stdout(&mut self) -> (worker: Result<LogWorker, DeviceSysLogError>)
        ensures
            final(self).filter() == old(self).filter(),
            final(self).devices() == old(self).devices(),
            match worker {
                Ok(made) => {
                    &&& old(self).filter().is_supported()
                    &&& final(self).pending() == old(self).pending().push(
                        LoggerCommand::StartLogging,
                    )
                    &&& made.status() == LoggerCommand::StopLogging
                    &&& !made.is_done()
                    &&& made.filter() == old(self).filter()
                    &&& made.sink() == SinkSpec::Stdout
                },
                Err(error) => {
                    &&& !old(self).filter().is_supported()
                    &&& error == DeviceSysLogError::UnsupportedFilter
                    &&& final(self).pending() == old(self).pending()
                },
            },
    {
        self.start(LogSink::Stdout)
    }

    /// Starts logging to the file at `file_path`, in uncoloured lines
    /// that are appended to it.
    ///
    /// Sends `StartLogging` and hands back the worker to run. With the
    /// reserved `Trigger` filter active nothing is sent and the start is
    /// refused.
    pub fn log_to_file(&mut self, file_path: &str) -> (worker: Result<LogWorker, DeviceSysLogError>)
        ensures
            final(self).filter() == old(self).filter(),
            final(self).devices() == old(self).devices(),
            match worker {
                Ok(made) => {
                    &&& old(self).filter().is_supported()
                    &&& final(self).pending() == old(self).pending().push(
                        LoggerCommand::StartLogging,
                    )
                    &&& made.status() == LoggerCommand::StopLogging
                    &&& !made.is_done()
                    &&& made.filter() == old(self).filter()
                    &&& made.sink() == SinkSpec::File(file_path@)
                },
                Err(error) => {
                    &&& !old(self).filter().is_supported()
                    &&& error == DeviceSysLogError::UnsupportedFilter
                    &&& final(self).pending() == old(self).pending()
                },
            },
    {
        self.start(LogSink::File(file_path.to_owned()))
    }

    /// Sends `StopLogging`: the worker that takes it leaves its loop.
    pub fn stop_logging(&mut self)
        ensures
            final(self).pending() == old(self).pending().push(LoggerCommand::StopLogging),
            final(self).filter() == old(self).filter(),
            final(self).devices() == old(self).devices(),
    {
        self.pending.push(LoggerCommand::StopLogging);
    }

    /// The worker's look at the command channel, without waiting: takes
    /// the oldest command under way, if there is one.
    pub fn take_command(&mut self) -> (command: Option<LoggerCommand>)
        ensures
            final(self).filter() == old(self).filter(),
            final(self).devices() == old(self).devices(),
            match command {
                Some(taken) => {
                    &&& old(self).pending().len() > 0
                    &&& taken == old(self).pending()[0]
                    &&& final(self).pending() == old(self).pending().drop_first()
                },
                None => old(self).pending().len() == 0 && final(self).pending() == old(
                    self,
                ).pending(),
            },
    {
        if self.pending.len() == 0 {
            None
        } else {
            let taken = self.pending.remove(0);
            assert(self.pending@ =~= old(self).pending@.drop_first());
            Some(taken)
        }
    }
}

/// Commands leave the channel in the order in which they were sent:
/// after a send, the commands that were under way before are still
/// taken first, and with none under way the command that was sent is
/// the next one taken.
pub proof fn commands_are_taken_in_send_order(pending: Seq<LoggerCommand>, sent: LoggerCommand)
    ensures
        pending.len() > 0 ==> pending.push(sent)[0] == pending[0] && pending.push(
            sent,
        ).drop_first() == pending.drop_first().push(sent),
        pending.len() == 0 ==> pending.push(sent)[0] == sent && pending.push(sent).drop_first()
            == pending,
{
    if pending.len() > 0 {
        assert(pending.push(sent).drop_first() =~= pending.drop_first().push(sent));
    } else {
        assert(pending.push(sent).drop_first() =~= pending);
    }
}

/// With no other command under way, a `StopLogging` that is sent while
/// the worker receives is what the worker's next look takes, and a
/// worker in its loop stops at that look.
pub proof fn stop_is_seen_at_next_look(pending: Seq<LoggerCommand>, status: LoggerCommand)
    requires
        pending.len() == 0,
    ensures
        action_for(
            next_status(status, Some(pending.push(LoggerCommand::StopLogging)[0])),
        ) == WorkerAction::Stop,
{
}

} // verus!

//! The log worker: what it does with each chunk of log text, and how
//! commands start and stop it.
use vstd::prelude::*;
use vstd::utf8::{decode_utf8, valid_utf8};
use crate::device_syslog::filter::{FilterSpec, LogFilter};
use crate::device_syslog::format::{colored_line, get_parsed_log, get_parsed_log_colored, plain_line};
use crate::device_syslog::parser::{parse_line, process_logs};
use crate::device_syslog::record::{opt_view, LogRecord, LogsData};
use crate::errors::DeviceSysLogError;
use crate::text::{is_substring, lines_view, split_lines, split_terminated, trim, trim_nul};

verus! {

/// The number of bytes that the worker asks of the device in one receive.
pub const CHUNK_SIZE: usize = 1024;

/// The seconds that the worker waits after a receive that failed.
pub const RETRY_DELAY_SECS: u64 = 1;

/// The file that the file sink writes to when its own cannot be opened.
pub const FALLBACK_LOG_FILE: &'static str = "temp.log";

/// The commands that start and stop the log worker.
#[derive(Debug, Clone, Copy, PartialEq, Eq, Structural)]
pub enum LoggerCommand {
    StartLogging,
    StopLogging,
}

/// The records of a chunk of text: one for each of its lines, read
/// without the NUL characters at the line's ends.
pub open spec fn chunk_records(text: Seq<char>) -> Seq<LogRecord> {
    split_terminated(text, '\n').map_values(|line: Seq<char>| parse_line(trim(line, '\0')))
}

/// What is delivered of a chunk's records, in order, while `filter` is
/// active. A record that the filter empties is passed over, as is one
/// that was empty before. Where the filter says not to continue, that
/// record and all that follow it in the chunk are left out; so nothing
/// is delivered under the reserved `Trigger` filter.
pub open spec fn delivered(filter: FilterSpec, records: Seq<LogRecord>) -> Seq<LogRecord>
    decreases records.len(),
{
    if records.len() == 0 {
        Seq::empty()
    } else if !filter.continues(records[0]) {
        Seq::empty()
    } else {
        let kept = filter.apply(records[0]);
        let rest = delivered(filter, records.drop_first());
        if kept.is_empty() {
            rest
        } else {
            seq![kept] + rest
        }
    }
}

/// The value of each of a list of records.
pub open spec fn records_view(records: Seq<LogsData>) -> Seq<LogRecord> {
    records.map_values(|record: LogsData| record@)
}

/// `delivered` of the records from `from` on is what the first of them
/// adds in front of `delivered` of those after it.
proof fn lemma_delivered_step(filter: FilterSpec, records: Seq<LogRecord>, from: int)
    requires
        0 <= from < records.len(),
    ensures
        delivered(filter, records.skip(from)) == if !filter.continues(records[from]) {
            Seq::<LogRecord>::empty()
        } else if filter.apply(records[from]).is_empty() {
            delivered(filter, records.skip(from + 1))
        } else {
            seq![filter.apply(records[from])] + delivered(filter, records.skip(from + 1))
        },
{
    let tail = records.skip(from);
    assert(tail[0] == records[from]);
    assert(tail.drop_first() =~= records.skip(from + 1));
}

/// Runs `filter` over records that were read from one chunk, and hands
/// back those to deliver, in order.
pub fn deliver<'a>(filter: &LogFilter, records: &Vec<LogsData<'a>>) -> (out: Vec<LogsData<'a>>)
    ensures
        records_view(out@) == delivered(filter@, records_view(records@)),
{
    let mut out: Vec<LogsData<'a>> = Vec::new();
    let mut i: usize = 0;
    let ghost all = records_view(records@);
    proof {
        assert(all.skip(0) =~= all);
        assert(records_view(out@) =~= Seq::<LogRecord>::empty());
    }
    while i < records.len()
        invariant_except_break
            i <= records.len(),
            delivered(filter@, all) == records_view(out@) + delivered(filter@, all.skip(i as int)),
        invariant
            all == records_view(records@),
        ensures
            records_view(out@) == delivered(filter@, all),
        decreases records.len() - i,
    {
        let mut record = records[i];
        proof {
            lemma_delivered_step(filter@, all, i as int);
        }
        if !filter.apply_and_is_okay_to_continue(&mut record) {
            break;
        }
        if !record.is_default() {
            proof {
                assert(records_view(out@.push(record)) =~= records_view(out@) + seq![record@]);
            }
            out.push(record);
        }
        i += 1;
    }
    proof {
        if i == records.len() {
            assert(all.skip(i as int) =~= Seq::<LogRecord>::empty());
        }
    }
    out
}

/// Reads the lines of a chunk of log text, runs `filter` over them and
/// hands back the records to deliver, in order.
///
/// The lines are the pieces of the text between line feeds; each is read
/// without the NUL characters at its ends. No line after the one that
/// stops the filter is read.
pub fn process_chunk<'a>(filter: &LogFilter, text: &'a str) -> (out: Vec<LogsData<'a>>)
    ensures
        records_view(out@) == delivered(filter@, chunk_records(text@)),
{
    let lines = split_lines(text);
    let mut out: Vec<LogsData<'a>> = Vec::new();
    let mut i: usize = 0;
    let ghost all = chunk_records(text@);
    proof {
        assert(all.skip(0) =~= all);
        assert(records_view(out@) =~= Seq::<LogRecord>::empty());
    }
    while i < lines.len()
        invariant_except_break
            i <= lines.len(),
            delivered(filter@, all) == records_view(out@) + delivered(filter@, all.skip(i as int)),
        invariant
            all == chunk_records(text@),
            lines_view(lines@) == split_terminated(text@, '\n'),
        ensures
            records_view(out@) == delivered(filter@, all),
        decreases lines.len() - i,
    {
        let mut record = process_logs(trim_nul(lines[i]));
        proof {
            assert(lines_view(lines@)[i as int] == lines@[i as int]@);
            assert(record@ == all[i as int]);
            lemma_delivered_step(filter@, all, i as int);
        }
        if !filter.apply_and_is_okay_to_continue(&mut record) {
            break;
        }
        if !record.is_default() {
            proof {
                assert(records_view(out@.push(record)) =~= records_view(out@) + seq![record@]);
            }
            out.push(record);
        }
        i += 1;
    }
    proof {
        if i == lines.len() {
            assert(all.skip(i as int) =~= Seq::<LogRecord>::empty());
        }
    }
    out
}

/// The text that a chunk of bytes is read as: its UTF-8 decoding, with
/// the replacement character U+FFFD in place of each invalid sequence.
pub uninterp spec fn utf8_lossy(bytes: Seq<u8>) -> Seq<char>;

/// Decodes a chunk with `String::from_utf8_lossy`.
///
/// Trusted: the result is a function of the bytes alone, and valid UTF-8
/// decodes to the characters that it encodes.
#[verifier::external_body]
fn decode_chunk(data: &[u8]) -> (text: String)
    ensures
        text@ == utf8_lossy(data@),
        valid_utf8(data@) ==> text@ == decode_utf8(data@),
{
    String::from_utf8_lossy(data).into_owned()
}

/// Where the worker's lines go.
#[derive(Debug, Clone, PartialEq, Eq)]
pub enum LogSink {
    /// Coloured lines on standard output.
    Stdout,
    /// Uncoloured lines, appended to the file at this path.
    File(String),
}

/// The mathematical value of a sink.
pub enum SinkSpec {
    Stdout,
    File(Seq<char>),
}

impl View for LogSink {
    type V = SinkSpec;

    open spec fn view(&self) -> SinkSpec {
        match self {
            LogSink::Stdout => SinkSpec::Stdout,
            LogSink::File(path) => SinkSpec::File(path@),
        }
    }
}

impl SinkSpec {
    /// The line that the sink writes for `record`: coloured on standard
    /// output, uncoloured in a file.
    pub open spec fn line(self, record: LogRecord) -> Seq<char> {
        match self {
            SinkSpec::Stdout => colored_line(record),
            SinkSpec::File(_) => plain_line(record),
        }
    }

    /// The file that the sink writes a line to, if it writes to a file:
    /// its own, or the fallback file where its own could not be opened.
    pub open spec fn target(self, open_failed: bool) -> Option<Seq<char>> {
        match self {
            SinkSpec::Stdout => None,
            SinkSpec::File(path) => if open_failed {
                Some(FALLBACK_LOG_FILE@)
            } else {
                Some(path)
            },
        }
    }
}

impl LogSink {
    /// The file to open for the next line, if the sink writes to a
    /// file. The sink's own file is tried first for every line;
    /// `open_failed` says that this try has failed, and the fallback
    /// file takes its place.
    pub fn target(&self, open_failed: bool) -> (path: Option<&str>)
        ensures
            opt_view(path) == self@.target(open_failed),
    {
        match self {
            LogSink::Stdout => None,
            LogSink::File(path) => if open_failed {
                Some(FALLBACK_LOG_FILE)
            } else {
                Some(path.as_str())
            },
        }
    }

    /// Formats `record` as this sink writes it.
    pub fn render(&self, record: &LogsData) -> (line: String)
        ensures
            line@ == self@.line(record@),
    {
        match self {
            LogSink::Stdout => get_parsed_log_colored(record),
            LogSink::File(_) => get_parsed_log(record),
        }
    }
}

/// What the worker does next.
#[derive(Debug, Clone, Copy, PartialEq, Eq, Structural)]
pub enum WorkerAction {
    /// Receive up to this many bytes from the device, then hand them to
    /// the worker.
    Receive(usize),
    /// Leave the loop: the worker is done.
    Stop,
}

/// The worker's status after it has looked for a command: the command
/// that it found, or its status before where there was none.
pub open spec fn next_status(status: LoggerCommand, command: Option<LoggerCommand>) -> LoggerCommand {
    match command {
        Some(given) => given,
        None => status,
    }
}

/// What a worker with this status does: receive while logging, stop
/// otherwise.
pub open spec fn action_for(status: LoggerCommand) -> WorkerAction {
    match status {
        LoggerCommand::StartLogging => WorkerAction::Receive(CHUNK_SIZE),
        LoggerCommand::StopLogging => WorkerAction::Stop,
    }
}

/// The lines that a sink writes for a list of records.
pub open spec fn rendered(sink: SinkSpec, records: Seq<LogRecord>) -> Seq<Seq<char>> {
    records.map_values(|record: LogRecord| sink.line(record))
}

/// The characters of each of a list of strings.
pub open spec fn strings_view(lines: Seq<String>) -> Seq<Seq<char>> {
    lines.map_values(|line: String| line@)
}

/// The worker of one logging session. It holds the filter and the sink
/// that it was started with, the last command that it has seen, and
/// whether it has left its loop. A worker that has left its loop is not
/// started again: a new session takes a new worker.
#[derive(Debug)]
pub struct LogWorker {
    status: LoggerCommand,
    done: bool,
    filter: LogFilter,
    sink: LogSink,
}

impl LogWorker {
    #[verifier::type_invariant]
    spec fn applicable(self) -> bool {
        self.filter@.is_supported()
    }

    /// The last command that the worker has seen.
    pub closed spec fn status(self) -> LoggerCommand {
        self.status
    }

    /// Whether the worker has left its loop.
    pub closed spec fn is_done(self) -> bool {
        self.done
    }

    /// The filter that the worker was started with.
    pub closed spec fn filter(self) -> FilterSpec {
        self.filter@
    }

    /// The sink that the worker was started with.
    pub closed spec fn sink(self) -> SinkSpec {
        self.sink@
    }

    /// A worker that has seen no command yet, which counts as
    /// `StopLogging`, and that has not entered its loop. The reserved
    /// `Trigger` filter is refused.
    pub fn new(filter: LogFilter, sink: LogSink) -> (worker: Result<LogWorker, DeviceSysLogError>)
        ensures
            match worker {
                Ok(made) => {
                    &&& filter@.is_supported()
                    &&& made.status() == LoggerCommand::StopLogging
                    &&& !made.is_done()
                    &&& made.filter() == filter@
                    &&& made.sink() == sink@
                },
                Err(error) => !filter@.is_supported() && error
                    == DeviceSysLogError::UnsupportedFilter,
            },
    {
        if filter.is_supported() {
            Ok(LogWorker { status: LoggerCommand::StopLogging, done: false, filter, sink })
        } else {
            Err(DeviceSysLogError::UnsupportedFilter)
        }
    }

    /// Whether the worker has left its loop.
    pub fn has_stopped(&self) -> (done: bool)
        ensures
            done == self.is_done(),
    {
        self.done
    }

    /// The last command that the worker has seen.
    pub fn current_status(&self) -> (status: LoggerCommand)
        ensures
            status == self.status(),
    {
        self.status
    }

    /// Where the worker's lines go.
    pub fn get_sink(&self) -> (sink: &LogSink)
        ensures
            sink@ == self.sink(),
    {
        &self.sink
    }

    /// The filter that the worker was started with.
    pub fn get_filter(&self) -> (filter: &LogFilter)
        ensures
            filter@ == self.filter(),
            filter@.is_supported(),
    {
        proof {
            use_type_invariant(self);
        }
        &self.filter
    }

    /// The seconds to wait before the next turn after a receive that
    /// failed. A failed receive changes nothing else: the worker keeps
    /// its status and goes on with its next look at the commands.
    pub fn retry_delay(&self) -> (seconds: u64)
        ensures
            seconds == RETRY_DELAY_SECS,
    {
        RETRY_DELAY_SECS
    }

    /// One turn of the worker's loop. `command` is what one look at the
    /// command channel gave, without waiting. The worker takes it as its
    /// status, if there is one, and then receives or stops by its status.
    /// Once it has stopped it has left its loop for good: every later
    /// turn stops too, whatever the command.
    pub fn poll(&mut self, command: Option<LoggerCommand>) -> (action: WorkerAction)
        ensures
            final(self).filter() == old(self).filter(),
            final(self).sink() == old(self).sink(),
            old(self).is_done() ==> {
                &&& action == WorkerAction::Stop
                &&& final(self).is_done()
                &&& final(self).status() == old(self).status()
            },
            !old(self).is_done() ==> {
                &&& final(self).status() == next_status(old(self).status(), command)
                &&& action == action_for(final(self).status())
                &&& final(self).is_done() == (action == WorkerAction::Stop)
            },
    {
        proof {
            use_type_invariant(&*self);
        }
        if self.done {
            return WorkerAction::Stop;
        }
        if let Some(given) = command {
            self.status = given;
        }
        match self.status {
            LoggerCommand::StartLogging => WorkerAction::Receive(CHUNK_SIZE),
            LoggerCommand::StopLogging => {
                self.done = true;
                WorkerAction::Stop
            },
        }
    }

    /// The records to deliver of a chunk of text that was received.
    pub fn process<'a>(&self, text: &'a str) -> (out: Vec<LogsData<'a>>)
        ensures
            records_view(out@) == delivered(self.filter(), chunk_records(text@)),
    {
        process_chunk(&self.filter, text)
    }

    /// The lines to write for a chunk of bytes that was received, in
    /// order: the chunk is decoded, its records are filtered, and each
    /// record to deliver is formatted for the worker's sink. The worker
    /// itself is left as it is: its status changes only in `poll`.
    pub fn handle_chunk(&self, data: &[u8]) -> (lines: Vec<String>)
        ensures
            strings_view(lines@) == rendered(
                self.sink(),
                delivered(self.filter(), chunk_records(utf8_lossy(data@))),
            ),
            valid_utf8(data@) ==> utf8_lossy(data@) == decode_utf8(data@),
    {
        let text = decode_chunk(data);
        let records = self.process(text.as_str());
        let mut lines: Vec<String> = Vec::new();
        let mut i: usize = 0;
        let ghost wanted = rendered(self.sink(), records_view(records@));
        while i < records.len()
            invariant
                i <= records.len(),
                wanted == rendered(self.sink(), records_view(records@)),
                wanted.len() == records.len(),
                lines.len() == i,
                strings_view(lines@) == wanted.take(i as int),
            decreases records.len() - i,
        {
            let line = self.sink.render(&records[i]);
            proof {
                assert(wanted[i as int] == line@);
                let before = strings_view(lines@);
                let after = strings_view(lines@.push(line));
                assert forall|k: int| 0 <= k < i + 1 implies after[k] == wanted.take(i + 1)[k] by {
                    if k < i {
                        assert(before[k] == wanted.take(i as int)[k]);
                    }
                }
                assert(after =~= wanted.take(i + 1));
            }
            lines.push(line);
            i += 1;
        }
        proof {
            assert(wanted.take(i as int) =~= wanted);
        }
        lines
    }
}

/// Under the reserved trigger filter, which is not supported, nothing
/// is delivered of any chunk.
pub proof fn trigger_delivers_nothing(pattern: Seq<char>, records: Seq<LogRecord>)
    ensures
        delivered(FilterSpec::Trigger(pattern), records) == Seq::<LogRecord>::empty(),
{
}

/// No empty record is delivered, and no more records are delivered
/// than the chunk holds.
pub proof fn delivered_records_are_not_empty(filter: FilterSpec, records: Seq<LogRecord>)
    ensures
        delivered(filter, records).len() <= records.len(),
        forall|i: int|
            0 <= i < delivered(filter, records).len() ==> !(#[trigger] delivered(
                filter,
                records,
            )[i]).is_empty(),
    decreases records.len(),
{
    if records.len() > 0 {
        delivered_records_are_not_empty(filter, records.drop_first());
    }
}

/// Under the untrigger filter, the first record whose message holds the
/// pattern ends the chunk: what is delivered is what the filter that
/// keeps everything delivers of the records before it.
pub proof fn untrigger_stops_at_first_hit(pattern: Seq<char>, records: Seq<LogRecord>, hit: int)
    requires
        0 <= hit < records.len(),
        is_substring(pattern, records[hit].message),
        forall|j: int| 0 <= j < hit ==> !is_substring(pattern, (#[trigger] records[j]).message),
    ensures
        delivered(FilterSpec::Untrigger(pattern), records) == delivered(
            FilterSpec::Nothing,
            records.take(hit),
        ),
    decreases hit,
{
    if hit > 0 {
        let rest = records.drop_first();
        assert(rest[hit - 1] == records[hit]);
        assert forall|j: int| 0 <= j < hit - 1 implies !is_substring(
            pattern,
            (#[trigger] rest[j]).message,
        ) by {
            assert(rest[j] == records[j + 1]);
        }
        untrigger_stops_at_first_hit(pattern, rest, hit - 1);
        assert(records.take(hit).drop_first() =~= rest.take(hit - 1));
        assert(records.take(hit)[0] == records[0]);
    } else {
        assert(records.take(0) =~= Seq::<LogRecord>::empty());
    }
}

/// Under the untrigger filter, a chunk with no record whose message
/// holds the pattern is delivered as under the filter that keeps
/// everything.
pub proof fn untrigger_without_hit_keeps_all(pattern: Seq<char>, records: Seq<LogRecord>)
    requires
        forall|j: int| 0 <= j < records.len() ==> !is_substring(
            pattern,
            (#[trigger] records[j]).message,
        ),
    ensures
        delivered(FilterSpec::Untrigger(pattern), records) == delivered(
            FilterSpec::Nothing,
            records,
        ),
    decreases records.len(),
{
    if records.len() > 0 {
        let rest = records.drop_first();
        assert forall|j: int| 0 <= j < rest.len() implies !is_substring(
            pattern,
            (#[trigger] rest[j]).message,
        ) by {
            assert(rest[j] == records[j + 1]);
        }
        untrigger_without_hit_keeps_all(pattern, rest);
    }
}

/// A worker in its loop that takes `StopLogging` at a look at the
/// command channel stops at that look, whatever its status was; one
/// that is logging and finds no command goes on receiving. The worker
/// looks once in each turn of its loop and at no other time, so a stop
/// that is sent while a receive is under way takes effect at the look
/// that follows it.
pub proof fn stop_takes_effect_at_next_poll(status: LoggerCommand)
    ensures
        action_for(next_status(status, Some(LoggerCommand::StopLogging))) == WorkerAction::Stop,
        action_for(next_status(LoggerCommand::StartLogging, None)) == WorkerAction::Receive(
            CHUNK_SIZE,
        ),
{
}

} // verus!

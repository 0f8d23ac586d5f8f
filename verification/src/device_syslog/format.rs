//! The line of text that a sink writes for a record.
use vstd::prelude::*;
use vstd::string::StringExecFns;
use crate::device_syslog::record::{opt_view, LogRecord, LogsData};

verus! {

/// The text of an optional field: the field itself, or `None` where it is
/// absent.
pub open spec fn field_or_none(field: Option<Seq<char>>) -> Seq<char> {
    match field {
        Some(text) => text,
        None => "None"@,
    }
}

/// The uncoloured line of a record:
/// `[date] device process [pid] <severity>: message`.
pub open spec fn plain_line(record: LogRecord) -> Seq<char> {
    "["@ + record.date + "] "@ + record.device + " "@ + record.process + " ["@ + field_or_none(
        record.pid,
    ) + "] <"@ + field_or_none(record.severity) + ">: "@ + record.message
}

/// The coloured line of a record: the same fields as the uncoloured line,
/// with the date in blue, the device in green, the process in cyan and
/// the severity in red, each colour reset after its field. The message
/// stands in the terminal's default colour, with no colour code round
/// it.
pub open spec fn colored_line(record: LogRecord) -> Seq<char> {
    "[\x1b[34m"@ + record.date + "\x1b[0m] \x1b[32m"@ + record.device + "\x1b[0m \x1b[36m"@
        + record.process + "\x1b[0m ["@ + field_or_none(record.pid) + "] <\x1b[31m"@
        + field_or_none(record.severity) + "\x1b[0m>: "@ + record.message
}

/// The text of an optional field, with `None` for an absent one.
fn text_or_none<'a>(field: Option<&'a str>) -> (text: &'a str)
    ensures
        text@ == field_or_none(opt_view(field)),
{
    match field {
        Some(text) => text,
        None => "None",
    }
}

/// Formats a record as one uncoloured line, without a line terminator.
pub fn get_parsed_log(log: &LogsData) -> (line: String)
    ensures
        line@ == plain_line(log@),
{
    let mut line = String::from_str("[");
    line.append(log.date);
    line.append("] ");
    line.append(log.device);
    line.append(" ");
    line.append(log.process);
    line.append(" [");
    line.append(text_or_none(log.pid));
    line.append("] <");
    line.append(text_or_none(log.severity));
    line.append(">: ");
    line.append(log.message);
    line
}

/// Formats a record as one line with ANSI colours, without a line
/// terminator.
pub fn get_parsed_log_colored(log: &LogsData) -> (line: String)
    ensures
        line@ == colored_line(log@),
{
    let mut line = String::from_str("[\x1b[34m");
    line.append(log.date);
    line.append("\x1b[0m] \x1b[32m");
    line.append(log.device);
    line.append("\x1b[0m \x1b[36m");
    line.append(log.process);
    line.append("\x1b[0m [");
    line.append(text_or_none(log.pid));
    line.append("] <\x1b[31m");
    line.append(text_or_none(log.severity));
    line.append("\x1b[0m>: ");
    line.append(log.message);
    line
}

} // verus!

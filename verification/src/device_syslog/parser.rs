//! Reading one line of log text into a record.
use vstd::prelude::*;
use crate::device_syslog::record::{opt_view, LogRecord, LogsData};
use crate::text::is_substring;

verus! {

/// The grammar of a log line: date, device, process with an optional
/// parenthesised part, optional process id in square brackets, optional
/// severity in angle brackets, and the message.
pub const LOG_PATTERN: &'static str =
    r"^(?P<date>\w{3}\s+\d{1,2}\s+\d{2}:\d{2}:\d{2})\s+(?P<device>\S+)\s+(?P<process>[^\[\(<]+(?:\([^\)]+\))?)(?:\[(?P<pid>\d+)\])?\s*(?:<(?P<severity>\w+)>:\s*)?(?P<message>.+)$";

/// The number of capture groups of the line grammar, the whole match
/// included.
pub const LOG_GROUPS: usize = 7;

#[verifier::external_type_specification]
#[verifier::external_body]
pub struct ExRegexError(regex::Error);

/// Whether `pattern` is a regular expression that the `regex` crate
/// compiles under its default limits.
pub uninterp spec fn regex_compiles(pattern: Seq<char>) -> bool;

/// What the first match of `pattern` in `haystack` captures: `None` where
/// nothing matches; else one entry for each capture group, in the order
/// of their opening brackets and with the whole match first, each the
/// text that the group matched, or `None` for a group that took no part
/// in the match.
pub uninterp spec fn regex_captures(pattern: Seq<char>, haystack: Seq<char>) -> Option<
    Seq<Option<Seq<char>>>,
>;

/// The characters of each captured group.
pub open spec fn groups_view(groups: Seq<Option<&str>>) -> Seq<Option<Seq<char>>> {
    groups.map_values(|group: Option<&str>| opt_view(group))
}

/// The characters of each captured group of a match, if there is a match.
pub open spec fn captures_view(found: Option<Vec<Option<&str>>>) -> Option<
    Seq<Option<Seq<char>>>,
> {
    match found {
        Some(groups) => Some(groups_view(groups@)),
        None => None,
    }
}

/// Whether every group that is there occurs in `haystack`.
pub open spec fn groups_within(groups: Seq<Option<Seq<char>>>, haystack: Seq<char>) -> bool {
    forall|i: int|
        0 <= i < groups.len() ==> ((#[trigger] groups[i]) matches Some(text) ==> is_substring(
            text,
            haystack,
        ))
}

/// Compiles `pattern` with `regex::Regex::new` and searches `haystack`
/// with `Regex::captures`, handing out the groups of `Captures::iter` as
/// string slices of `haystack`.
///
/// Trusted: the call fails exactly where the pattern does not compile;
/// what it finds is a function of the pattern and the haystack alone;
/// and each group that it finds is a piece of the haystack.
#[verifier::external_body]
fn captures<'h>(pattern: &str, haystack: &'h str) -> (found: Result<
    Option<Vec<Option<&'h str>>>,
    regex::Error,
>)
    ensures
        (found is Ok) == regex_compiles(pattern@),
        found matches Ok(groups) ==> captures_view(groups) == regex_captures(
            pattern@,
            haystack@,
        ),
        found matches Ok(Some(groups)) ==> groups_within(groups_view(groups@), haystack@),
{
    let compiled = regex::Regex::new(pattern)?;
    match compiled.captures(haystack) {
        None => Ok(None),
        Some(caps) => {
            let mut groups = Vec::new();
            for group in caps.iter() {
                groups.push(group.map(|m| m.as_str()));
            }
            Ok(Some(groups))
        },
    }
}

/// The record that the groups of a matched line stand for: date, device,
/// process, process id, severity and message are groups one to six. The
/// process id and the severity may be absent; without one of the others,
/// with an empty message, or with another number of groups, there is no
/// record.
pub open spec fn record_of_groups(groups: Seq<Option<Seq<char>>>) -> Option<LogRecord> {
    if groups.len() == LOG_GROUPS && groups[1] is Some && groups[2] is Some && groups[3] is Some
        && groups[6] is Some && groups[6]->0.len() > 0 {
        Some(
            LogRecord {
                date: groups[1]->0,
                device: groups[2]->0,
                process: groups[3]->0,
                pid: groups[4],
                severity: groups[5],
                message: groups[6]->0,
            },
        )
    } else {
        None
    }
}

/// The record that a search result stands for, if any.
pub open spec fn record_of_captures(found: Option<Seq<Option<Seq<char>>>>) -> Option<LogRecord> {
    match found {
        Some(groups) => record_of_groups(groups),
        None => None,
    }
}

/// Whether the line grammar matches `line`: the search finds date,
/// device, process and a message that is not empty.
pub open spec fn line_matches(line: Seq<char>) -> bool {
    regex_compiles(LOG_PATTERN@) && record_of_captures(regex_captures(LOG_PATTERN@, line)) is Some
}

/// The record of a line: the fields that the line grammar captures, or
/// the empty record for a line that the grammar does not match.
pub open spec fn parse_line(line: Seq<char>) -> LogRecord {
    if line_matches(line) {
        record_of_captures(regex_captures(LOG_PATTERN@, line))->0
    } else {
        LogRecord::empty()
    }
}

/// A line gives the empty record exactly where the grammar does not
/// match it: the record of a line that matches holds at least a message.
pub proof fn record_is_empty_without_match(line: Seq<char>)
    ensures
        parse_line(line).is_empty() <==> !line_matches(line),
        line_matches(line) ==> parse_line(line).message.len() > 0,
{
}

/// Whether each field of `record` occurs in `line`. The empty record lies
/// within every line.
pub open spec fn record_within(record: LogRecord, line: Seq<char>) -> bool {
    &&& is_substring(record.date, line)
    &&& is_substring(record.device, line)
    &&& is_substring(record.process, line)
    &&& record.pid matches Some(pid) ==> is_substring(pid, line)
    &&& record.severity matches Some(severity) ==> is_substring(severity, line)
    &&& is_substring(record.message, line)
}

/// The value of an optional record.
pub open spec fn opt_record_view(record: Option<LogsData>) -> Option<LogRecord> {
    match record {
        Some(data) => Some(data@),
        None => None,
    }
}

/// Builds the record of a line from what the line grammar captured in
/// it. A record that is built is never the empty record.
pub fn process_log_line<'a>(found: &Option<Vec<Option<&'a str>>>) -> (record: Option<LogsData<'a>>)
    ensures
        opt_record_view(record) == record_of_captures(captures_view(*found)),
        record matches Some(built) ==> !built@.is_empty(),
{
    let groups = match found {
        Some(groups) => groups,
        None => {
            return None;
        },
    };
    if groups.len() != LOG_GROUPS {
        return None;
    }
    match (groups[1], groups[2], groups[3], groups[6]) {
        (Some(date), Some(device), Some(process), Some(message)) => {
            if message.is_empty() {
                None
            } else {
                Some(
                    LogsData {
                        date,
                        device,
                        process,
                        pid: groups[4],
                        severity: groups[5],
                        message,
                    },
                )
            }
        },
        _ => None,
    }
}

/// Reads one line of log text. A line that the grammar does not match
/// gives the empty record, and no other line does; of a line that it
/// matches, the record holds the pieces that the grammar captures.
pub fn process_logs<'a>(line: &'a str) -> (record: LogsData<'a>)
    ensures
        record@ == parse_line(line@),
        record@.is_empty() <==> !line_matches(line@),
        record_within(record@, line@),
{
    let found = captures(LOG_PATTERN, line);
    proof {
        assert(line@.subrange(0, 0) =~= Seq::<char>::empty());
        assert(crate::text::occurs_at(Seq::<char>::empty(), line@, 0));
    }
    match found {
        Ok(found) => match process_log_line(&found) {
            Some(record) => {
                proof {
                    let groups = groups_view(found->0@);
                    assert(groups[1] is Some && groups[2] is Some && groups[3] is Some
                        && groups[6] is Some);
                    assert(groups[4] == record@.pid && groups[5] == record@.severity);
                }
                record
            },
            None => LogsData::default(),
        },
        Err(_) => LogsData::default(),
    }
}

} // verus!

//! The audit trail: what is written to which of a profile's two log
//! streams, and how a request to read or clear a log is understood.

use crate::text::{decimal, push_decimal, str_eq};
use vstd::prelude::*;
use vstd::string::*;

verus! {

/// One of the two log streams of a profile.
#[derive(Clone, Copy, Debug, PartialEq, Eq, Structural)]
pub enum LogStream {
    /// Every statement and every error, in one timeline.
    Query,
    /// The errors alone.
    Error,
}

/// A message bound for one stream.
#[derive(Clone, Debug)]
pub struct LogEntry {
    pub stream: LogStream,
    pub message: String,
}

/// What a [`LogEntry`] says, as plain text.
pub struct LogLine {
    pub stream: LogStream,
    pub message: Seq<char>,
}

impl View for LogEntry {
    type V = LogLine;

    open spec fn view(&self) -> LogLine {
        LogLine { stream: self.stream, message: self.message@ }
    }
}

/// The entries as plain text, in their order.
pub open spec fn lines(entries: Seq<LogEntry>) -> Seq<LogLine> {
    Seq::new(entries.len(), |i: int| entries[i]@)
}

/// How many of the lines go to the given stream.
pub open spec fn count_for(all: Seq<LogLine>, stream: LogStream) -> nat
    decreases all.len(),
{
    if all.len() == 0 {
        0
    } else {
        count_for(all.drop_last(), stream) + if all.last().stream == stream {
            1nat
        } else {
            0nat
        }
    }
}

/// The name of the file that holds a stream.
pub open spec fn file_name_of(stream: LogStream) -> Seq<char> {
    match stream {
        LogStream::Query => "mysql.log.txt"@,
        LogStream::Error => "error.log.txt"@,
    }
}

/// The name of the file that holds a stream, below the profile's log
/// directory.
pub fn file_name(stream: LogStream) -> (name: &'static str)
    ensures
        name@ == file_name_of(stream),
{
    match stream {
        LogStream::Query => "mysql.log.txt",
        LogStream::Error => "error.log.txt",
    }
}

/// The text of the line that records a message at a time.
pub open spec fn line_text(stamp: Seq<char>, message: Seq<char>) -> Seq<char> {
    seq!['['] + stamp + seq![']', ' '] + message
}

/// The line that records `message` under the time stamp `stamp`:
/// `[stamp] message`.
pub fn format_line(stamp: &str, message: &str) -> (line: String)
    ensures
        line@ == line_text(stamp@, message@),
{
    let mut line = String::new();
    line.push('[');
    line.append(stamp);
    line.push(']');
    line.push(' ');
    line.append(message);
    proof {
        assert(line@ =~= line_text(stamp@, message@));
    }
    line
}

/// The message that records a statement and the number of rows it gave.
pub open spec fn query_message(statement: Seq<char>, rows: nat) -> Seq<char> {
    "QUERY: "@ + statement + " \u{2192} "@ + decimal(rows) + " rows"@
}

/// The message that records a notice.
pub open spec fn info_message(notice: Seq<char>) -> Seq<char> {
    "INFO: "@ + notice
}

/// The message that records an error.
pub open spec fn error_message(error: Seq<char>) -> Seq<char> {
    "ERROR: "@ + error
}

/// The line a statement that succeeded leaves: one, in the query stream.
pub open spec fn success_lines(statement: Seq<char>, rows: nat) -> Seq<LogLine> {
    seq![LogLine { stream: LogStream::Query, message: query_message(statement, rows) }]
}

/// The line a notice leaves: one, in the query stream.
pub open spec fn info_lines(notice: Seq<char>) -> Seq<LogLine> {
    seq![LogLine { stream: LogStream::Query, message: info_message(notice) }]
}

/// The lines an error leaves: one in the error stream, then one in the
/// query stream, with the same message.
pub open spec fn error_lines(error: Seq<char>) -> Seq<LogLine> {
    seq![
        LogLine { stream: LogStream::Error, message: error_message(error) },
        LogLine { stream: LogStream::Query, message: error_message(error) },
    ]
}

/// Records a statement that succeeded, with the number of rows it gave
/// (zero for a statement without a result set).
pub fn query_result_entry(statement: &str, rows: usize) -> (entry: LogEntry)
    ensures
        entry@ == success_lines(statement@, rows as nat)[0],
{
    let mut message = String::new();
    message.append("QUERY: ");
    message.append(statement);
    message.append(" \u{2192} ");
    push_decimal(&mut message, rows as u64);
    message.append(" rows");
    proof {
        assert(message@ =~= query_message(statement@, rows as nat));
    }
    LogEntry { stream: LogStream::Query, message }
}

/// Records a notice.
pub fn info_entry(notice: &str) -> (entry: LogEntry)
    ensures
        entry@ == info_lines(notice@)[0],
{
    let mut message = String::new();
    message.append("INFO: ");
    message.append(notice);
    proof {
        assert(message@ =~= info_message(notice@));
    }
    LogEntry { stream: LogStream::Query, message }
}

/// Records an error: in the error stream and, for the whole timeline, in
/// the query stream too.
pub fn error_entries(error: &str) -> (entries: Vec<LogEntry>)
    ensures
        lines(entries@) == error_lines(error@),
{
    let mut message = String::new();
    message.append("ERROR: ");
    message.append(error);
    proof {
        assert(message@ =~= error_message(error@));
    }
    let mut entries: Vec<LogEntry> = Vec::new();
    entries.push(LogEntry { stream: LogStream::Error, message: message.clone() });
    entries.push(LogEntry { stream: LogStream::Query, message });
    proof {
        assert(lines(entries@) =~= error_lines(error@));
    }
    entries
}

/// A statement that succeeded leaves one line in the query stream and none
/// in the error stream.
pub proof fn lemma_success_is_one_query_line(statement: Seq<char>, rows: nat)
    ensures
        count_for(success_lines(statement, rows), LogStream::Query) == 1,
        count_for(success_lines(statement, rows), LogStream::Error) == 0,
{
    reveal_with_fuel(count_for, 2);
}

/// An error leaves one line in each of the two streams.
pub proof fn lemma_error_is_one_line_each(error: Seq<char>)
    ensures
        count_for(error_lines(error), LogStream::Query) == 1,
        count_for(error_lines(error), LogStream::Error) == 1,
{
    let all = error_lines(error);
    assert(all.drop_last().drop_last().len() == 0);
    reveal_with_fuel(count_for, 3);
}

/// The lines of two runs of entries, one after the other, count together.
pub proof fn lemma_count_adds(a: Seq<LogLine>, b: Seq<LogLine>, stream: LogStream)
    ensures
        count_for(a + b, stream) == count_for(a, stream) + count_for(b, stream),
    decreases b.len(),
{
    if b.len() == 0 {
        assert(a + b =~= a);
    } else {
        assert((a + b).drop_last() =~= a + b.drop_last());
        assert((a + b).last() == b.last());
        lemma_count_adds(a, b.drop_last(), stream);
    }
}

pub open spec fn unknown_read_type() -> Seq<char> {
    "Unknown log type. Use 'mysql' or 'error'."@
}

pub open spec fn unknown_clear_type() -> Seq<char> {
    "Unknown log type. Use 'mysql', 'error', or 'all'."@
}

/// The stream that a log type names: `query` and `mysql` name the query
/// stream, `error` the error stream, nothing else names one.
pub open spec fn stream_named(log_type: Seq<char>) -> Option<LogStream> {
    if log_type == "query"@ || log_type == "mysql"@ {
        Some(LogStream::Query)
    } else if log_type == "error"@ {
        Some(LogStream::Error)
    } else {
        None
    }
}

/// The stream that a log type names, if it names one.
pub fn stream_for(log_type: &str) -> (stream: Option<LogStream>)
    ensures
        stream == stream_named(log_type@),
{
    if str_eq(log_type, "query") || str_eq(log_type, "mysql") {
        Some(LogStream::Query)
    } else if str_eq(log_type, "error") {
        Some(LogStream::Error)
    } else {
        None
    }
}

/// The stream whose log a read request asks for.
pub fn stream_to_read(log_type: &str) -> (chosen: Result<LogStream, String>)
    ensures
        match chosen {
            Ok(stream) => stream_named(log_type@) == Some(stream),
            Err(message) => stream_named(log_type@) is None && message@ == unknown_read_type(),
        },
{
    match stream_for(log_type) {
        Some(stream) => Ok(stream),
        None => Err("Unknown log type. Use 'mysql' or 'error'.".to_owned()),
    }
}

/// Which logs a clear request removes, and whether a failure to remove one
/// is reported.
pub struct ClearPlan {
    pub streams: Vec<LogStream>,
    pub report_failure: bool,
}

/// Whether the log type asks for both logs at once.
pub open spec fn names_all(log_type: Seq<char>) -> bool {
    stream_named(log_type) is None && log_type == "all"@
}

/// The logs that a clear request removes: the one that the log type names,
/// whose removal must succeed, or with `all` both, whatever becomes of
/// either.
pub fn streams_to_clear(log_type: &str) -> (chosen: Result<ClearPlan, String>)
    ensures
        match chosen {
            Ok(plan) => match stream_named(log_type@) {
                Some(stream) => plan.streams@ == seq![stream] && plan.report_failure,
                None => names_all(log_type@) && plan.streams@ == seq![
                    LogStream::Query,
                    LogStream::Error,
                ] && !plan.report_failure,
            },
            Err(message) => stream_named(log_type@) is None && !names_all(log_type@) && message@
                == unknown_clear_type(),
        },
{
    match stream_for(log_type) {
        Some(stream) => {
            let mut streams: Vec<LogStream> = Vec::new();
            streams.push(stream);
            proof {
                assert(streams@ =~= seq![stream]);
            }
            Ok(ClearPlan { streams, report_failure: true })
        },
        None => {
            if str_eq(log_type, "all") {
                let mut streams: Vec<LogStream> = Vec::new();
                streams.push(LogStream::Query);
                streams.push(LogStream::Error);
                proof {
                    assert(streams@ =~= seq![LogStream::Query, LogStream::Error]);
                }
                Ok(ClearPlan { streams, report_failure: false })
            } else {
                Err("Unknown log type. Use 'mysql', 'error', or 'all'.".to_owned())
            }
        },
    }
}

/// What a read request returns: nothing for a log that was never written,
/// the text of one that was read, and an error for one that could not be
/// read.
pub fn settle_read(found: Option<Result<String, String>>) -> (text: Result<String, String>)
    ensures
        match found {
            None => text is Ok && text->Ok_0@ == Seq::<char>::empty(),
            Some(Ok(stored)) => text is Ok && text->Ok_0@ == stored@,
            Some(Err(cause)) => text is Err && text->Err_0@ == "Read error: "@ + cause@,
        },
{
    match found {
        None => Ok(String::new()),
        Some(Ok(stored)) => Ok(stored),
        Some(Err(cause)) => {
            let mut message = String::new();
            message.append("Read error: ");
            message.append(cause.as_str());
            proof {
                assert(message@ =~= "Read error: "@ + cause@);
            }
            Err(message)
        },
    }
}

/// What a clear request returns once a log was removed or could not be:
/// the failure only where the plan reports failures.
pub fn settle_removal(report_failure: bool, removal: Result<(), String>) -> (done: Result<
    (),
    String,
>)
    ensures
        match removal {
            Err(cause) if report_failure => done is Err && done->Err_0@ == "Delete error: "@
                + cause@,
            _ => done is Ok,
        },
{
    match removal {
        Err(cause) => {
            if report_failure {
                let mut message = String::new();
                message.append("Delete error: ");
                message.append(cause.as_str());
                proof {
                    assert(message@ =~= "Delete error: "@ + cause@);
                }
                Err(message)
            } else {
                Ok(())
            }
        },
        Ok(()) => Ok(()),
    }
}

} // verus!

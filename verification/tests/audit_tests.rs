use workgrid_studio::audit::{
    error_entries, file_name, format_line, info_entry, query_result_entry, settle_read,
    settle_removal, stream_for, stream_to_read, streams_to_clear, LogStream,
};

#[test]
fn each_stream_has_its_file() {
    assert_eq!(file_name(LogStream::Query), "mysql.log.txt");
    assert_eq!(file_name(LogStream::Error), "error.log.txt");
}

#[test]
fn line_carries_stamp_and_message() {
    assert_eq!(
        format_line("2024-01-01 00:00:00", "INFO: Disconnected"),
        "[2024-01-01 00:00:00] INFO: Disconnected"
    );
    assert_eq!(format_line("", ""), "[] ");
}

#[test]
fn statement_is_recorded_with_its_rows() {
    let entry = query_result_entry("SHOW DATABASES", 12);
    assert_eq!(entry.stream, LogStream::Query);
    assert_eq!(entry.message, "QUERY: SHOW DATABASES \u{2192} 12 rows");
    let entry = query_result_entry("SET SESSION a = '1'", 0);
    assert_eq!(entry.message, "QUERY: SET SESSION a = '1' \u{2192} 0 rows");
}

#[test]
fn notice_goes_to_the_query_stream() {
    let entry = info_entry("Connected to root@localhost:3306");
    assert_eq!(entry.stream, LogStream::Query);
    assert_eq!(entry.message, "INFO: Connected to root@localhost:3306");
}

#[test]
fn error_goes_to_both_streams() {
    let entries = error_entries("Query error [x]: oops");
    assert_eq!(entries.len(), 2);
    assert_eq!(entries[0].stream, LogStream::Error);
    assert_eq!(entries[1].stream, LogStream::Query);
    assert_eq!(entries[0].message, "ERROR: Query error [x]: oops");
    assert_eq!(entries[1].message, "ERROR: Query error [x]: oops");
}

#[test]
fn log_types_name_streams() {
    assert_eq!(stream_for("query"), Some(LogStream::Query));
    assert_eq!(stream_for("mysql"), Some(LogStream::Query));
    assert_eq!(stream_for("error"), Some(LogStream::Error));
    assert_eq!(stream_for("all"), None);
    assert_eq!(stream_for(""), None);
    assert_eq!(stream_for("Query"), None);
}

#[test]
fn read_request_for_a_stream() {
    assert_eq!(stream_to_read("mysql"), Ok(LogStream::Query));
    assert_eq!(stream_to_read("query"), Ok(LogStream::Query));
    assert_eq!(stream_to_read("error"), Ok(LogStream::Error));
}

#[test]
fn read_request_for_an_unknown_type() {
    let message = String::from("Unknown log type. Use 'mysql' or 'error'.");
    assert_eq!(stream_to_read("all"), Err(message.clone()));
    assert_eq!(stream_to_read("nothing"), Err(message));
}

#[test]
fn clear_request_for_one_stream() {
    let plan = streams_to_clear("error").unwrap();
    assert_eq!(plan.streams, vec![LogStream::Error]);
    assert!(plan.report_failure);
    let plan = streams_to_clear("query").unwrap();
    assert_eq!(plan.streams, vec![LogStream::Query]);
    assert!(plan.report_failure);
}

#[test]
fn clear_request_for_all() {
    let plan = streams_to_clear("all").unwrap();
    assert_eq!(plan.streams, vec![LogStream::Query, LogStream::Error]);
    assert!(!plan.report_failure);
}

#[test]
fn clear_request_for_an_unknown_type() {
    match streams_to_clear("everything") {
        Err(message) => assert_eq!(message, "Unknown log type. Use 'mysql', 'error', or 'all'."),
        Ok(_) => panic!("the log type was not refused"),
    }
}

#[test]
fn log_that_was_never_written_reads_as_empty() {
    assert_eq!(settle_read(None), Ok(String::new()));
}

#[test]
fn log_that_was_written_reads_as_it_is() {
    assert_eq!(
        settle_read(Some(Ok(String::from("[t] INFO: x\n")))),
        Ok(String::from("[t] INFO: x\n"))
    );
}

#[test]
fn log_that_cannot_be_read_gives_an_error() {
    assert_eq!(
        settle_read(Some(Err(String::from("permission denied")))),
        Err(String::from("Read error: permission denied"))
    );
}

#[test]
fn failed_removal_is_reported_where_asked() {
    assert_eq!(
        settle_removal(true, Err(String::from("busy"))),
        Err(String::from("Delete error: busy"))
    );
    assert_eq!(settle_removal(false, Err(String::from("busy"))), Ok(()));
    assert_eq!(settle_removal(true, Ok(())), Ok(()));
    assert_eq!(settle_removal(false, Ok(())), Ok(()));
}

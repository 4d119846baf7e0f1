use workgrid_studio::audit::LogStream;
use workgrid_studio::failure::{failed, DbError};

#[test]
fn message_of_each_failure() {
    assert_eq!(DbError::NotConnected.message(), "Not connected. Please connect first.");
    assert_eq!(
        DbError::Connectivity {
            target: Some(String::from("root@db:3306")),
            cause: String::from("refused"),
        }
        .message(),
        "refused"
    );
    assert_eq!(
        DbError::Connectivity { target: None, cause: String::from("timed out") }.message(),
        "Connection error: timed out"
    );
    assert_eq!(
        DbError::Query { statement: String::from("SHOW TABLES"), cause: String::from("denied") }
            .message(),
        "Query error [SHOW TABLES]: denied"
    );
    assert_eq!(
        DbError::InvalidIdentifier { name: String::from("a b") }.message(),
        "Invalid variable name: a b"
    );
    assert_eq!(DbError::Lock { cause: String::from("poisoned") }.message(), "Lock error: poisoned");
}

#[test]
fn failure_leaves_a_line_in_each_stream() {
    for error in [
        DbError::NotConnected,
        DbError::Connectivity { target: None, cause: String::from("c") },
        DbError::Query { statement: String::from("s"), cause: String::from("c") },
        DbError::Lock { cause: String::from("c") },
    ] {
        let entries = error.log_entries();
        assert_eq!(entries.len(), 2);
        assert_eq!(entries[0].stream, LogStream::Error);
        assert_eq!(entries[1].stream, LogStream::Query);
        assert_eq!(entries[0].message, format!("ERROR: {}", error.record()));
        assert_eq!(entries[1].message, entries[0].message);
    }
}

#[test]
fn refused_name_is_not_logged() {
    assert!(DbError::InvalidIdentifier { name: String::from("x;") }.log_entries().is_empty());
}

#[test]
fn failed_outcome_carries_failure_and_lines() {
    let out = failed::<u8>(DbError::Lock { cause: String::from("poisoned") });
    match out.result {
        Err(DbError::Lock { cause }) => assert_eq!(cause, "poisoned"),
        _ => panic!("the outcome is not the failure"),
    }
    assert_eq!(out.log.len(), 2);
    assert_eq!(out.log[0].message, "ERROR: Lock error: poisoned");
}

#[test]
fn failed_connect_is_shown_as_its_cause_and_recorded_with_its_target() {
    let error = DbError::Connectivity {
        target: Some(String::from("root@db:3306")),
        cause: String::from("Access denied for user 'root'"),
    };
    assert_eq!(error.message(), "Access denied for user 'root'");
    assert_eq!(error.record(), "Connection failed to root@db:3306: Access denied for user 'root'");
    let entries = error.log_entries();
    assert_eq!(entries.len(), 2);
    assert_eq!(entries[0].stream, LogStream::Error);
    assert_eq!(entries[1].stream, LogStream::Query);
    assert_eq!(
        entries[0].message,
        "ERROR: Connection failed to root@db:3306: Access denied for user 'root'"
    );
    assert_eq!(entries[1].message, entries[0].message);
}

#[test]
fn other_failures_are_recorded_as_they_are_shown() {
    for error in [
        DbError::NotConnected,
        DbError::Connectivity { target: None, cause: String::from("c") },
        DbError::Query { statement: String::from("s"), cause: String::from("c") },
        DbError::InvalidIdentifier { name: String::from("n") },
        DbError::Lock { cause: String::from("c") },
    ] {
        assert_eq!(error.record(), error.message());
    }
}

use std::sync::Arc;
use workgrid_studio::audit::LogStream;
use workgrid_studio::registry::{connect_begins, disconnect_begins};
use workgrid_studio::{ConnectParams, DbError, DbState};

fn params(profile: &str, host: &str, port: u16, database: Option<&str>) -> ConnectParams {
    ConnectParams {
        profile_id: String::from(profile),
        host: String::from(host),
        port,
        user: String::from("root"),
        password: String::from("secret"),
        database: database.map(String::from),
        ssl: false,
    }
}

fn same_pool(a: &mysql_async::Pool, b: &mysql_async::Pool) -> bool {
    Arc::ptr_eq(&a.metrics(), &b.metrics())
}

#[test]
fn target_names_user_host_and_port() {
    assert_eq!(params("p", "localhost", 3306, None).target(), "root@localhost:3306");
    assert_eq!(params("p", "10.0.0.7", 0, None).target(), "root@10.0.0.7:0");
    assert_eq!(params("p", "", 65535, None).target(), "root@:65535");
}

#[test]
fn empty_database_means_no_default_schema() {
    assert_eq!(params("p", "h", 1, None).default_schema(), None);
    assert_eq!(params("p", "h", 1, Some("")).default_schema(), None);
    assert_eq!(params("p", "h", 1, Some("shop")).default_schema(), Some(String::from("shop")));
    assert_eq!(params("p", "h", 1, Some(" ")).default_schema(), Some(String::from(" ")));
}

#[test]
fn nothing_resolves_before_a_connect() {
    let state = DbState::new();
    for profile in ["", "p", "another profile"] {
        assert!(matches!(state.resolve(profile), Err(DbError::NotConnected)));
    }
}

#[test]
fn connect_registers_the_pool() {
    let mut state = DbState::new();
    let request = params("p", "localhost", 3306, Some("shop"));
    let pool = request.open_pool();
    let kept = pool.clone();
    let out = state.connect(&request, pool, Ok(()));
    assert_eq!(out.result.unwrap(), "Connected to root@localhost:3306");
    assert_eq!(out.log.len(), 1);
    assert_eq!(out.log[0].stream, LogStream::Query);
    assert_eq!(out.log[0].message, "INFO: Connected to root@localhost:3306");
    assert!(same_pool(state.resolve("p").unwrap(), &kept));
    assert!(matches!(state.resolve("q"), Err(DbError::NotConnected)));
}

#[test]
fn failed_trial_registers_nothing() {
    let mut state = DbState::new();
    let request = params("p", "localhost", 3306, None);
    let out = state.connect(&request, request.open_pool(), Err(String::from("refused")));
    match out.result {
        Err(error) => assert_eq!(error.message(), "refused"),
        Ok(_) => panic!("the connect did not fail"),
    }
    assert_eq!(out.log.len(), 2);
    assert_eq!(out.log[0].stream, LogStream::Error);
    assert_eq!(out.log[1].stream, LogStream::Query);
    assert_eq!(
        out.log[0].message,
        "ERROR: Connection failed to root@localhost:3306: refused"
    );
    assert!(matches!(state.resolve("p"), Err(DbError::NotConnected)));
}

#[test]
fn failed_trial_keeps_the_pool_that_was_there() {
    let mut state = DbState::new();
    let first = params("p", "one", 3306, None);
    let pool = first.open_pool();
    let kept = pool.clone();
    assert!(state.connect(&first, pool, Ok(())).result.is_ok());
    let second = params("p", "two", 3307, None);
    assert!(state.connect(&second, second.open_pool(), Err(String::from("down"))).result.is_err());
    assert!(same_pool(state.resolve("p").unwrap(), &kept));
}

#[test]
fn second_connect_replaces_the_first() {
    let mut state = DbState::new();
    let first = params("p", "one", 3306, None);
    let second = params("p", "two", 3307, Some("shop"));
    let first_pool = first.open_pool();
    let first_kept = first_pool.clone();
    let second_pool = second.open_pool();
    let second_kept = second_pool.clone();
    assert!(state.connect(&first, first_pool, Ok(())).result.is_ok());
    let out = state.connect(&second, second_pool, Ok(()));
    assert_eq!(out.result.unwrap(), "Connected to root@two:3307");
    let found = state.resolve("p").unwrap();
    assert!(same_pool(found, &second_kept));
    assert!(!same_pool(found, &first_kept));
}

#[test]
fn replace_hands_over_the_pool_that_was_there() {
    let mut state = DbState::new();
    let request = params("p", "one", 3306, None);
    let first = request.open_pool();
    let first_kept = first.clone();
    assert!(state.replace(String::from("p"), first).is_none());
    let retired = state.replace(String::from("p"), request.open_pool());
    assert!(same_pool(&retired.unwrap(), &first_kept));
    let retired = state.remove("p");
    assert!(!same_pool(&retired.unwrap(), &first_kept));
    assert!(state.remove("p").is_none());
}

#[test]
fn profiles_do_not_touch_each_other() {
    let mut state = DbState::new();
    let one = params("one", "a", 1, None);
    let two = params("two", "b", 2, None);
    let pool_one = one.open_pool();
    let kept_one = pool_one.clone();
    let pool_two = two.open_pool();
    let kept_two = pool_two.clone();
    assert!(state.connect(&one, pool_one, Ok(())).result.is_ok());
    assert!(state.connect(&two, pool_two, Ok(())).result.is_ok());
    assert!(same_pool(state.resolve("one").unwrap(), &kept_one));
    assert!(same_pool(state.resolve("two").unwrap(), &kept_two));
    assert!(state.disconnect("one").result.is_ok());
    assert!(matches!(state.resolve("one"), Err(DbError::NotConnected)));
    assert!(same_pool(state.resolve("two").unwrap(), &kept_two));
}

#[test]
fn disconnect_twice_never_fails() {
    let mut state = DbState::new();
    let request = params("p", "localhost", 3306, None);
    assert!(state.connect(&request, request.open_pool(), Ok(())).result.is_ok());
    for _ in 0..2 {
        let out = state.disconnect("p");
        assert_eq!(out.result.unwrap(), "Disconnected");
        assert_eq!(out.log.len(), 1);
        assert_eq!(out.log[0].stream, LogStream::Query);
        assert_eq!(out.log[0].message, "INFO: Disconnected");
        assert!(matches!(state.resolve("p"), Err(DbError::NotConnected)));
    }
}

#[test]
fn disconnect_of_an_unknown_profile_succeeds() {
    let mut state = DbState::new();
    assert_eq!(state.disconnect("nobody").result.unwrap(), "Disconnected");
}

#[test]
fn announcements() {
    let entry = connect_begins(&params("p", "localhost", 3306, None));
    assert_eq!(entry.stream, LogStream::Query);
    assert_eq!(entry.message, "INFO: Connecting to root@localhost:3306 ...");
    let entry = disconnect_begins();
    assert_eq!(entry.stream, LogStream::Query);
    assert_eq!(entry.message, "INFO: Disconnecting...");
}

#[test]
fn failed_connect_hands_the_cause_on_word_for_word() {
    let mut state = DbState::new();
    let request = params("p", "db.example", 3307, None);
    for cause in ["", "refused", "Access denied for user 'root'@'%' (using password: YES)"] {
        let out = state.connect(&request, request.open_pool(), Err(String::from(cause)));
        match out.result {
            Err(error) => {
                assert!(matches!(error, DbError::Connectivity { .. }));
                assert_eq!(error.message(), cause);
            }
            Ok(_) => panic!("the connect did not fail"),
        }
    }
}

#[test]
fn options_carry_the_request() {
    let options = params("p", "db.example", 3307, Some("shop")).options();
    assert_eq!(options.ip_or_hostname(), "db.example");
    assert_eq!(options.tcp_port(), 3307);
    assert_eq!(options.user(), Some("root"));
    assert_eq!(options.pass(), Some("secret"));
    assert_eq!(options.db_name(), Some("shop"));
    assert!(options.ssl_opts().is_none());
}

#[test]
fn options_without_a_default_schema() {
    assert_eq!(params("p", "h", 1, None).options().db_name(), None);
    assert_eq!(params("p", "h", 1, Some("")).options().db_name(), None);
}

#[test]
fn options_ask_for_encryption_by_the_flag() {
    let mut request = params("p", "db.example", 3306, None);
    assert!(request.options().ssl_opts().is_none());
    request.ssl = true;
    let options = request.options();
    assert!(options.ssl_opts().is_some());
    assert_eq!(options.ip_or_hostname(), "db.example");
    assert_eq!(options.tcp_port(), 3306);
    assert_eq!(options.user(), Some("root"));
    assert_eq!(options.pass(), Some("secret"));
    assert_eq!(options.db_name(), None);
}

use workgrid_studio::failure::DbError;
use workgrid_studio::identifier::{escape_value, is_global, name_char, set_variable_statement, validate};

#[test]
fn plain_name_passes() {
    assert!(validate("max_connections").is_ok());
    assert!(validate("A9_z").is_ok());
    assert!(validate("").is_ok());
}

#[test]
fn name_with_a_statement_in_it_is_refused() {
    match validate("max; DROP TABLE x") {
        Err(DbError::InvalidIdentifier { name }) => assert_eq!(name, "max; DROP TABLE x"),
        _ => panic!("the name was not refused"),
    }
}

#[test]
fn letters_outside_ascii_are_refused() {
    assert!(matches!(validate("gr\u{f6}\u{df}e"), Err(DbError::InvalidIdentifier { .. })));
    assert!(matches!(validate("a b"), Err(DbError::InvalidIdentifier { .. })));
    assert!(matches!(validate("a-b"), Err(DbError::InvalidIdentifier { .. })));
    assert!(matches!(validate("a`"), Err(DbError::InvalidIdentifier { .. })));
    assert!(matches!(validate("a'"), Err(DbError::InvalidIdentifier { .. })));
}

#[test]
fn name_characters() {
    for c in ['a', 'z', 'A', 'Z', '0', '9', '_'] {
        assert!(name_char(c));
    }
    for c in [' ', ';', '-', '\'', '`', '\\', '\u{e9}', '@', '[', '{', '/', ':'] {
        assert!(!name_char(c));
    }
}

#[test]
fn quotes_and_backslashes_are_doubled() {
    assert_eq!(escape_value("plain"), "plain");
    assert_eq!(escape_value(""), "");
    assert_eq!(escape_value("it's"), "it''s");
    assert_eq!(escape_value("a\\b"), "a\\\\b");
    assert_eq!(escape_value("\\'"), "\\\\''");
    assert_eq!(escape_value("''"), "''''");
    assert_eq!(escape_value("\u{2192}'"), "\u{2192}''");
}

#[test]
fn escaping_agrees_with_two_replacements() {
    for value in ["", "x", "'", "\\", "a'b\\c''\\\\", "\\'\\'"] {
        assert_eq!(escape_value(value), value.replace('\\', "\\\\").replace('\'', "''"));
    }
}

#[test]
fn global_in_any_case() {
    assert!(is_global("GLOBAL"));
    assert!(is_global("global"));
    assert!(is_global("GlObAl"));
    assert!(!is_global("SESSION"));
    assert!(!is_global(""));
    assert!(!is_global("GLOBAL "));
    assert!(!is_global("GLOBA"));
    assert!(!is_global("GLOBAK"));
}

#[test]
fn set_statement_for_each_scope() {
    assert_eq!(
        set_variable_statement("global", "max_connections", "200").unwrap(),
        "SET GLOBAL max_connections = '200'"
    );
    assert_eq!(
        set_variable_statement("SESSION", "sql_mode", "").unwrap(),
        "SET SESSION sql_mode = ''"
    );
    assert_eq!(
        set_variable_statement("anything", "init_connect", "SET NAMES 'utf8'").unwrap(),
        "SET SESSION init_connect = 'SET NAMES ''utf8'''"
    );
}

#[test]
fn set_statement_refuses_a_bad_name() {
    match set_variable_statement("GLOBAL", "x = 1; --", "1") {
        Err(error) => assert_eq!(error.message(), "Invalid variable name: x = 1; --"),
        Ok(_) => panic!("the name was not refused"),
    }
}

//! The plan of each query command: the statements that it runs on one
//! connection, in order, and the name each goes by in the audit trail.

use crate::failure::{DbError, Failure};
use crate::identifier::{is_valid_name, set_statement, set_variable_statement};
use crate::pipeline::{plan_text, Statement, StatementText};
use crate::text::{decimal, push_decimal};
use vstd::prelude::*;
use vstd::string::*;

verus! {

pub const SHOW_DATABASES: &'static str = "SHOW DATABASES";

pub const SHOW_TABLES: &'static str = "SHOW TABLES";

pub const DATABASES_INFO: &'static str =
    "SELECT s.SCHEMA_NAME, COALESCE(SUM(t.DATA_LENGTH + t.INDEX_LENGTH), 0) AS size_bytes, COALESCE(SUM(CASE WHEN t.TABLE_TYPE = 'BASE TABLE' THEN 1 ELSE 0 END), 0) AS tables_count, COALESCE(SUM(CASE WHEN t.TABLE_TYPE = 'VIEW' THEN 1 ELSE 0 END), 0) AS views_count, s.DEFAULT_COLLATION_NAME, DATE_FORMAT(MAX(t.UPDATE_TIME), '%Y-%m-%d %H:%i:%s') AS last_modified FROM information_schema.SCHEMATA s LEFT JOIN information_schema.TABLES t ON t.TABLE_SCHEMA = s.SCHEMA_NAME GROUP BY s.SCHEMA_NAME, s.DEFAULT_COLLATION_NAME ORDER BY s.SCHEMA_NAME";

pub const DATABASES_INFO_LABEL: &'static str = "SELECT databases info FROM information_schema";

pub const TABLES_INFO: &'static str =
    "SELECT TABLE_NAME, TABLE_ROWS, (DATA_LENGTH + INDEX_LENGTH) AS size_bytes, DATE_FORMAT(CREATE_TIME, '%Y-%m-%d %H:%i:%s') AS CREATE_TIME, DATE_FORMAT(UPDATE_TIME, '%Y-%m-%d %H:%i:%s') AS UPDATE_TIME, ENGINE, TABLE_COMMENT, TABLE_TYPE FROM information_schema.TABLES WHERE TABLE_SCHEMA = :db ORDER BY TABLE_NAME";

pub const VARIABLE_SCOPES: &'static str =
    "SELECT VARIABLE_NAME, VARIABLE_SCOPE FROM performance_schema.variables_info";

pub const SESSION_VARIABLES: &'static str = "SHOW SESSION VARIABLES";

pub const GLOBAL_VARIABLES: &'static str = "SHOW GLOBAL VARIABLES";

pub const GLOBAL_STATUS: &'static str = "SHOW GLOBAL STATUS";

pub const PROCESSES: &'static str =
    "SELECT ID, USER, HOST, DB, COMMAND, TIME, STATE, INFO FROM information_schema.PROCESSLIST ORDER BY TIME DESC";

pub const SHOW_COLLATION: &'static str = "SHOW COLLATION";

pub const DEFAULT_CHARSET: &'static str = "SHOW CHARACTER SET WHERE Charset = 'utf8mb4'";

/// A statement that goes by its own text in the audit trail.
pub open spec fn plain(text: Seq<char>, required: bool) -> StatementText {
    StatementText { text, label: text, required }
}

/// The statement that makes a database the session's own.
pub open spec fn use_text(database: Seq<char>) -> Seq<char> {
    "USE `"@ + database + "`"@
}

/// The name under which the tables of a database are listed.
pub open spec fn tables_label(database: Seq<char>) -> Seq<char> {
    "SHOW TABLES FROM `"@ + database + "`"@
}

/// The statement that lists the columns of a table.
pub open spec fn columns_text(database: Seq<char>, table: Seq<char>) -> Seq<char> {
    "SHOW COLUMNS FROM `"@ + database + "`.`"@ + table + "`"@
}

/// The name under which the tables of a database are described.
pub open spec fn tables_info_label(database: Seq<char>) -> Seq<char> {
    "SELECT tables info FROM information_schema for "@ + database
}

/// The statement that ends a process of the server.
pub open spec fn kill_text(process_id: u64) -> Seq<char> {
    "KILL "@ + decimal(process_id as nat)
}

fn one(statement: Statement) -> (plan: Vec<Statement>)
    ensures
        plan_text(plan@) == seq![statement@],
{
    let mut plan: Vec<Statement> = Vec::new();
    plan.push(statement);
    proof {
        assert(plan_text(plan@) =~= seq![statement@]);
    }
    plan
}

fn simple(text: &str, required: bool) -> (statement: Statement)
    ensures
        statement@ == plain(text@, required),
{
    Statement { text: text.to_owned(), label: text.to_owned(), required }
}

/// The plan that lists the databases.
pub fn list_databases() -> (plan: Vec<Statement>)
    ensures
        plan_text(plan@) == seq![plain(SHOW_DATABASES@, true)],
{
    one(simple(SHOW_DATABASES, true))
}

/// The plan that lists the tables of a database: the database is made the
/// session's own, then its tables are listed, both on the one connection.
pub fn list_tables(database: &str) -> (plan: Vec<Statement>)
    ensures
        plan_text(plan@) == seq![
            plain(use_text(database@), true),
            StatementText { text: SHOW_TABLES@, label: tables_label(database@), required: true },
        ],
{
    let mut select = String::new();
    select.append("USE `");
    select.append(database);
    select.append("`");
    let mut label = String::new();
    label.append("SHOW TABLES FROM `");
    label.append(database);
    label.append("`");
    proof {
        assert(select@ =~= use_text(database@));
        assert(label@ =~= tables_label(database@));
    }
    let mut plan: Vec<Statement> = Vec::new();
    plan.push(simple(select.as_str(), true));
    plan.push(Statement { text: SHOW_TABLES.to_owned(), label, required: true });
    proof {
        assert(plan_text(plan@) =~= seq![
            plain(use_text(database@), true),
            StatementText { text: SHOW_TABLES@, label: tables_label(database@), required: true },
        ]);
    }
    plan
}

/// The plan that lists the columns of a table.
pub fn list_columns(database: &str, table: &str) -> (plan: Vec<Statement>)
    ensures
        plan_text(plan@) == seq![plain(columns_text(database@, table@), true)],
{
    let mut text = String::new();
    text.append("SHOW COLUMNS FROM `");
    text.append(database);
    text.append("`.`");
    text.append(table);
    text.append("`");
    proof {
        assert(text@ =~= columns_text(database@, table@));
    }
    one(simple(text.as_str(), true))
}

/// The plan that describes every database.
pub fn databases_info() -> (plan: Vec<Statement>)
    ensures
        plan_text(plan@) == seq![
            StatementText { text: DATABASES_INFO@, label: DATABASES_INFO_LABEL@, required: true },
        ],
{
    one(
        Statement {
            text: DATABASES_INFO.to_owned(),
            label: DATABASES_INFO_LABEL.to_owned(),
            required: true,
        },
    )
}

/// The plan that describes the tables of a database. The statement takes
/// the database as its parameter `db`.
pub fn tables_info(database: &str) -> (plan: Vec<Statement>)
    ensures
        plan_text(plan@) == seq![
            StatementText {
                text: TABLES_INFO@,
                label: tables_info_label(database@),
                required: true,
            },
        ],
{
    let mut label = String::new();
    label.append("SELECT tables info FROM information_schema for ");
    label.append(database);
    proof {
        assert(label@ =~= tables_info_label(database@));
    }
    one(Statement { text: TABLES_INFO.to_owned(), label, required: true })
}

/// The plan that reads the server's variables: their scopes, which the
/// command can do without, then the session's values, then the global ones.
pub fn variables() -> (plan: Vec<Statement>)
    ensures
        plan_text(plan@) == seq![
            plain(VARIABLE_SCOPES@, false),
            plain(SESSION_VARIABLES@, true),
            plain(GLOBAL_VARIABLES@, true),
        ],
{
    let mut plan: Vec<Statement> = Vec::new();
    plan.push(simple(VARIABLE_SCOPES, false));
    plan.push(simple(SESSION_VARIABLES, true));
    plan.push(simple(GLOBAL_VARIABLES, true));
    proof {
        assert(plan_text(plan@) =~= seq![
            plain(VARIABLE_SCOPES@, false),
            plain(SESSION_VARIABLES@, true),
            plain(GLOBAL_VARIABLES@, true),
        ]);
    }
    plan
}

/// The plan that sets a variable. A name that may not stand in a statement
/// is refused, and there is no plan.
pub fn set_variable(scope: &str, name: &str, value: &str) -> (plan: Result<Vec<Statement>, DbError>)
    ensures
        match plan {
            Ok(statements) => is_valid_name(name@) && plan_text(statements@) == seq![
                plain(set_statement(scope@, name@, value@), true),
            ],
            Err(error) => !is_valid_name(name@) && error@ == (Failure::InvalidIdentifier {
                name: name@,
            }),
        },
{
    match set_variable_statement(scope, name, value) {
        Ok(text) => Ok(one(simple(text.as_str(), true))),
        Err(error) => Err(error),
    }
}

/// The plan that reads the server's status.
pub fn status() -> (plan: Vec<Statement>)
    ensures
        plan_text(plan@) == seq![plain(GLOBAL_STATUS@, true)],
{
    one(simple(GLOBAL_STATUS, true))
}

/// The plan that lists the server's processes.
pub fn processes() -> (plan: Vec<Statement>)
    ensures
        plan_text(plan@) == seq![plain(PROCESSES@, true)],
{
    one(simple(PROCESSES, true))
}

/// The plan that ends a process of the server.
pub fn kill_process(process_id: u64) -> (plan: Vec<Statement>)
    ensures
        plan_text(plan@) == seq![plain(kill_text(process_id), true)],
{
    let mut text = String::new();
    text.append("KILL ");
    push_decimal(&mut text, process_id);
    proof {
        assert(text@ =~= kill_text(process_id));
    }
    one(simple(text.as_str(), true))
}

/// The plan that runs a statement of the caller's as it stands.
pub fn execute_query(query: &str) -> (plan: Vec<Statement>)
    ensures
        plan_text(plan@) == seq![plain(query@, true)],
{
    one(simple(query, true))
}

/// The plan that reads the collations, then the default character set.
pub fn collations() -> (plan: Vec<Statement>)
    ensures
        plan_text(plan@) == seq![plain(SHOW_COLLATION@, true), plain(DEFAULT_CHARSET@, true)],
{
    let mut plan: Vec<Statement> = Vec::new();
    plan.push(simple(SHOW_COLLATION, true));
    plan.push(simple(DEFAULT_CHARSET, true));
    proof {
        assert(plan_text(plan@) =~= seq![
            plain(SHOW_COLLATION@, true),
            plain(DEFAULT_CHARSET@, true),
        ]);
    }
    plan
}

} // verus!

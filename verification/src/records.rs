//! The records that the listing commands hand to the caller, one for each
//! row of the server's answer.

use vstd::prelude::*;

verus! {

/// One database of the server.
#[derive(Clone, Debug)]
pub struct DatabaseInfo {
    pub name: String,
    pub size_bytes: i64,
    pub tables: i64,
    pub views: i64,
    pub default_collation: String,
    pub last_modified: Option<String>,
}

/// One table of a database.
#[derive(Clone, Debug)]
pub struct TableInfo {
    pub name: String,
    pub rows: Option<i64>,
    pub size_bytes: Option<i64>,
    pub created: Option<String>,
    pub updated: Option<String>,
    pub engine: Option<String>,
    pub comment: Option<String>,
    pub type_: String,
}

/// One status value of the server.
#[derive(Clone, Debug)]
pub struct StatusInfo {
    pub name: String,
    pub value: String,
}

/// One process of the server.
#[derive(Clone, Debug)]
pub struct ProcessInfo {
    pub id: u64,
    pub user: Option<String>,
    pub host: Option<String>,
    pub db: Option<String>,
    pub command: Option<String>,
    pub time: Option<i64>,
    pub state: Option<String>,
    pub info: Option<String>,
}

} // verus!

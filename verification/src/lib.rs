//! Core of a multi-profile database client: the connection registry, the
//! shaping of query results, statement building and the audit trail.

pub mod audit;
pub mod clock;
pub mod collations;
pub mod columns;
pub mod driver;
pub mod failure;
pub mod identifier;
pub mod pipeline;
pub mod plans;
pub mod records;
pub mod registry;
pub mod text;
pub mod variables;

pub use collations::CollationResponse;
pub use columns::ColumnInfo;
pub use failure::{DbError, Outcome};
pub use records::{DatabaseInfo, ProcessInfo, StatusInfo, TableInfo};
pub use registry::{ConnectParams, DbState};
pub use variables::VariableInfo;

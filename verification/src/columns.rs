//! Column metadata as shown for one table.

use crate::text::str_eq;
use vstd::prelude::*;

verus! {

/// One column of a table.
#[derive(Clone, Debug)]
pub struct ColumnInfo {
    pub name: String,
    pub col_type: String,
    pub nullable: bool,
    pub key: String,
    pub default_val: Option<String>,
    pub extra: String,
}

/// Whether a raw nullability indicator marks the column as nullable: only
/// the exact text `YES` does.
pub open spec fn marks_nullable(raw: Seq<char>) -> bool {
    raw == "YES"@
}

/// Whether a raw nullability indicator marks the column as nullable: only
/// the exact text `YES` does, in upper case.
pub fn is_nullable(raw: &str) -> (nullable: bool)
    ensures
        nullable == marks_nullable(raw@),
{
    str_eq(raw, "YES")
}

/// The column that one row of the server's column listing describes: its
/// fields as they stand, and the nullability that the raw indicator marks.
pub fn column_info(
    field: String,
    col_type: String,
    null: String,
    key: String,
    default_val: Option<String>,
    extra: String,
) -> (column: ColumnInfo)
    ensures
        column.name == field,
        column.col_type == col_type,
        column.nullable == marks_nullable(null@),
        column.key == key,
        column.default_val == default_val,
        column.extra == extra,
{
    let nullable = is_nullable(null.as_str());
    ColumnInfo { name: field, col_type, nullable, key, default_val, extra }
}

/// What a [`ColumnInfo`] says, as plain text.
pub struct ColumnText {
    pub name: Seq<char>,
    pub col_type: Seq<char>,
    pub nullable: bool,
    pub key: Seq<char>,
    pub default_val: Option<Seq<char>>,
    pub extra: Seq<char>,
}

impl View for ColumnInfo {
    type V = ColumnText;

    open spec fn view(&self) -> ColumnText {
        ColumnText {
            name: self.name@,
            col_type: self.col_type@,
            nullable: self.nullable,
            key: self.key@,
            default_val: match self.default_val {
                Some(text) => Some(text@),
                None => None,
            },
            extra: self.extra@,
        }
    }
}

/// The column that one row of the server's column listing describes. A row
/// holds the field, its type, the raw nullability indicator, the key kind,
/// the default and the extra attributes.
pub open spec fn column_of(row: (String, String, String, String, Option<String>, String)) -> ColumnText {
    ColumnText {
        name: row.0@,
        col_type: row.1@,
        nullable: marks_nullable(row.2@),
        key: row.3@,
        default_val: match row.4 {
            Some(text) => Some(text@),
            None => None,
        },
        extra: row.5@,
    }
}

/// The columns that the rows of the server's column listing describe: one
/// for each row, in the order of the rows.
pub fn columns_of(rows: Vec<(String, String, String, String, Option<String>, String)>) -> (out: Vec<
    ColumnInfo,
>)
    ensures
        out.len() == rows.len(),
        forall|i: int| 0 <= i < rows.len() ==> (#[trigger] out@[i])@ == column_of(rows@[i]),
{
    let mut out: Vec<ColumnInfo> = Vec::new();
    let mut i: usize = 0;
    while i < rows.len()
        invariant
            i <= rows.len(),
            out.len() == i,
            forall|k: int| 0 <= k < i ==> (#[trigger] out@[k])@ == column_of(rows@[k]),
        decreases rows.len() - i,
    {
        let row = &rows[i];
        let default_val = match &row.4 {
            Some(text) => Some(text.clone()),
            None => None,
        };
        let column = column_info(
            row.0.clone(),
            row.1.clone(),
            row.2.clone(),
            row.3.clone(),
            default_val,
            row.5.clone(),
        );
        out.push(column);
        i += 1;
    }
    out
}

} // verus!

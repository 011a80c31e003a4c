//! The built-in catalog relation: its fixed CREATE text, its aliases,
//! and the shape of its rows.

use vstd::prelude::*;
use vstd::string::StringSliceAdditionalSpecFns;
use crate::util::bytes_eq;

verus! {

/// The CREATE text of the built-in catalog table.
pub open spec fn spec_schema_sql() -> Seq<u8> {
    "CREATE TABLE sqlite_schema(\n  type text,\n  name text,\n  tbl_name text,\n  rootpage integer,\n  sql text\n);".spec_bytes()
}

/// The CREATE text of the built-in catalog table, as bytes.
pub fn schema_sql() -> (r: Vec<u8>)
    ensures
        r@ == spec_schema_sql(),
{
    vstd::slice::slice_to_vec(
        "CREATE TABLE sqlite_schema(\n  type text,\n  name text,\n  tbl_name text,\n  rootpage integer,\n  sql text\n);".as_bytes(),
    )
}

/// Whether a table name is one of the four catalog aliases.
pub open spec fn spec_is_schema_alias(name: Seq<u8>) -> bool {
    ||| name == "sqlite_schema".spec_bytes()
    ||| name == "sqlite_master".spec_bytes()
    ||| name == "sqlite_temp_schema".spec_bytes()
    ||| name == "sqlite_temp_master".spec_bytes()
}

/// Whether a table name is one of the four catalog aliases.
pub fn is_schema_alias(name: &[u8]) -> (r: bool)
    ensures
        r == spec_is_schema_alias(name@),
{
    bytes_eq(name, "sqlite_schema".as_bytes()) || bytes_eq(name, "sqlite_master".as_bytes())
        || bytes_eq(name, "sqlite_temp_schema".as_bytes()) || bytes_eq(
        name,
        "sqlite_temp_master".as_bytes(),
    )
}

/// The value kinds of a catalog row.
#[derive(PartialEq, Eq, Structural, Debug, Clone, Copy)]
pub enum ColumnType {
    Integer,
    Float,
    Text,
    Blob,
}

/// A decoded catalog row.
#[derive(Debug)]
pub struct SchemaRow {
    pub obj_type: Vec<u8>,
    pub name: Vec<u8>,
    pub tbl_name: Vec<u8>,
    pub rootpage: i64,
    pub sql: Vec<u8>,
}

impl SchemaRow {
    /// The value kinds of a catalog row, in column order.
    pub fn records() -> (r: Vec<ColumnType>)
        ensures
            r@ == seq![
                ColumnType::Text, ColumnType::Text, ColumnType::Text, ColumnType::Integer,
                ColumnType::Text,
            ],
    {
        let mut v: Vec<ColumnType> = Vec::new();
        v.push(ColumnType::Text);
        v.push(ColumnType::Text);
        v.push(ColumnType::Text);
        v.push(ColumnType::Integer);
        v.push(ColumnType::Text);
        proof {
            assert(v@ =~= seq![
                ColumnType::Text, ColumnType::Text, ColumnType::Text, ColumnType::Integer,
                ColumnType::Text,
            ]);
        }
        v
    }
}

} // verus!

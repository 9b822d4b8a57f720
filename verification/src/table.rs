//! Tables of typed columns.
use vstd::prelude::*;

verus! {

pub enum ColumnKind {
    /// Allows to build custom types for further interpretation
    Other(String),
    String,
    Number,
    AccountId,
    JSON,
    Bytes,
}

pub struct Column {
    pub name: String,
    pub kind: ColumnKind,
}

pub struct Row {}

pub struct Table {
    pub columns: Vec<Column>,
}

} // verus!

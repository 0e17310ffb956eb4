//! Schema analysis and SQL statement generation for tables described by
//! plain Rust structs, with the case conventions used to rename tables and
//! columns.

pub mod text;
pub mod rename;
pub mod sqltype;
pub mod attributes;
pub mod schema;
pub mod sql;

//! Schema negotiation for a columnar data-extraction pipeline.
//!
//! Given the column universe that a registry advertises for one data entity,
//! its ordered default column list, and the caller's include / exclude /
//! explicit override lists, this crate resolves the exact ordered set of
//! output columns and their encoded storage types, packaged as an immutable
//! [`Table`].

pub mod ordered;
pub mod selection;
pub mod tables;
pub mod types;

pub use selection::compute_used_columns;
pub use tables::Table;
pub use types::{ColumnEncoding, ColumnType, Datatype, SchemaError};

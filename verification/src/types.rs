//! The core vocabulary of the schema layer: storage types, encoding
//! preferences, entity identifiers, and the single error kind.

use vstd::prelude::*;

verus! {

/// Storage representation of a column.
///
/// `Binary` and `Hex` describe the same underlying byte data: `Hex` is a
/// display encoding of `Binary`, introduced only while building a schema for
/// a caller whose encoding preference asks for it. A registry never reports
/// `Hex` as a native type.
#[derive(Clone, Copy, Debug, PartialEq, Eq, Structural)]
pub enum ColumnType {
    /// unsigned 32-bit integer
    UInt32,
    /// unsigned 64-bit integer
    UInt64,
    /// signed 32-bit integer
    Int32,
    /// signed 64-bit integer
    Int64,
    /// 64-bit float
    Float64,
    /// 128-bit fixed-point decimal
    Decimal128,
    /// UTF-8 string
    String,
    /// raw binary
    Binary,
    /// hex-encoded string form of binary data
    Hex,
}

impl ColumnType {
    /// The canonical lowercase name of this storage type.
    pub open spec fn as_str_spec(self) -> Seq<char> {
        match self {
            ColumnType::UInt32 => "uint32"@,
            ColumnType::UInt64 => "uint64"@,
            ColumnType::Int32 => "int32"@,
            ColumnType::Int64 => "int64"@,
            ColumnType::Float64 => "float64"@,
            ColumnType::Decimal128 => "decimal128"@,
            ColumnType::String => "string"@,
            ColumnType::Binary => "binary"@,
            ColumnType::Hex => "hex"@,
        }
    }

    /// Convert this storage type to its canonical lowercase name.
    pub fn as_str(&self) -> (r: &'static str)
        ensures
            r@ == self.as_str_spec(),
    {
        match *self {
            ColumnType::UInt32 => "uint32",
            ColumnType::UInt64 => "uint64",
            ColumnType::Int32 => "int32",
            ColumnType::Int64 => "int64",
            ColumnType::Float64 => "float64",
            ColumnType::Decimal128 => "decimal128",
            ColumnType::String => "string",
            ColumnType::Binary => "binary",
            ColumnType::Hex => "hex",
        }
    }
}

/// How a caller wants binary column data represented in the output.
#[derive(Clone, Copy, Debug, PartialEq, Eq, Structural)]
pub enum ColumnEncoding {
    /// keep binary columns as raw bytes
    Binary,
    /// re-encode binary columns as hex strings
    Hex,
}

/// The storage type a resolved schema reports for a column, given the
/// column's native registry type and the caller's encoding preference:
/// `Binary` becomes `Hex` when hex encoding is requested, every other type
/// passes through unchanged.
pub open spec fn encoded_type(native: ColumnType, encoding: ColumnEncoding) -> ColumnType {
    if native == ColumnType::Binary && encoding == ColumnEncoding::Hex {
        ColumnType::Hex
    } else {
        native
    }
}

/// The hex override touches exactly the binary columns of a hex-encoded
/// schema: a `Binary` column under the `Hex` preference is reported as
/// `Hex`, and a column of any other native type is reported unchanged
/// under every preference.
pub proof fn lemma_encoded_type_hex_override(native: ColumnType, encoding: ColumnEncoding)
    ensures
        native == ColumnType::Binary && encoding == ColumnEncoding::Hex ==> encoded_type(
            native,
            encoding,
        ) == ColumnType::Hex,
        native != ColumnType::Binary ==> encoded_type(native, encoding) == native,
        encoding != ColumnEncoding::Hex ==> encoded_type(native, encoding) == native,
{
}

/// Identifier of a data entity whose schema is being resolved. The registry
/// that knows each entity's available columns and defaults is a collaborator
/// of this crate, not part of it: resolution takes the registry's data as
/// arguments and records the entity identifier in the resulting table.
#[derive(Clone, Copy, Debug, PartialEq, Eq, Structural)]
pub enum Datatype {
    /// block-level data
    Blocks,
    /// transaction-level data
    Transactions,
    /// event log data
    Logs,
    /// execution trace data
    Traces,
}

/// Error raised while resolving a schema.
#[derive(Clone, Copy, Debug, PartialEq, Eq, Structural)]
pub enum SchemaError {
    /// a selected column name has no entry in the registry's type mapping
    InvalidColumn,
}

} // verus!

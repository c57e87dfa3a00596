//! The data types of columns and the settings of writers, as far as the
//! encoder looks at them, and what it takes of them.

use crate::columnar::{
    column_codec, column_encoding, field_bytes, field_bytes_kind, field_numeric,
    field_numeric_kind, field_temporal, field_temporal_kind, field_time_unit, field_unit,
    props_codec, props_encoding,
};
use arrow::datatypes::Field;
use parquet::file::properties::WriterProperties;
use vstd::prelude::*;

verus! {

/// A boolean or a number.
#[derive(Debug, Clone, Copy, PartialEq, Eq, Structural)]
pub enum Numeric {
    Boolean,
    Int8,
    Int16,
    Int32,
    Int64,
    UInt8,
    UInt16,
    UInt32,
    UInt64,
    Float16,
    Float32,
    Float64,
}

/// A date or a time.
#[derive(Debug, Clone, Copy, PartialEq, Eq, Structural)]
pub enum Temporal {
    Timestamp,
    Date32,
    Date64,
    Time32,
    Time64,
    Duration,
}

/// The unit in which a time is counted.
#[derive(Debug, Clone, Copy, PartialEq, Eq, Structural)]
pub enum Unit {
    Second,
    Millisecond,
    Microsecond,
    Nanosecond,
}

/// Text or bytes.
#[derive(Debug, Clone, Copy, PartialEq, Eq, Structural)]
pub enum BytesKind {
    Binary,
    LargeBinary,
    BinaryView,
    Utf8,
    LargeUtf8,
    Utf8View,
}

/// How the pages of a column are compressed.
#[derive(Debug, Clone, Copy, PartialEq, Eq, Structural)]
pub enum Codec {
    Uncompressed,
    Snappy,
    Gzip,
    Lzo,
    Brotli,
    Lz4,
    Zstd,
    Lz4Raw,
}

/// How the values of a column are encoded.
#[derive(Debug, Clone, Copy, PartialEq, Eq, Structural)]
pub enum ValueEncoding {
    Plain,
    PlainDictionary,
    Rle,
    BitPacked,
    DeltaBinaryPacked,
    DeltaLengthByteArray,
    DeltaByteArray,
    RleDictionary,
    ByteStreamSplit,
}

/// A time of day of 32 bits is counted in seconds or milliseconds, one of 64
/// bits in microseconds or nanoseconds; the other date and time types take
/// every unit.
pub open spec fn unit_fits(temporal: Temporal, unit: Option<Unit>) -> bool {
    match temporal {
        Temporal::Time32 => unit == Some(Unit::Second) || unit == Some(Unit::Millisecond),
        Temporal::Time64 => unit == Some(Unit::Microsecond) || unit == Some(Unit::Nanosecond),
        _ => true,
    }
}

/// Whether the encoder takes columns of the field's data type. It takes
/// booleans and numbers, text and bytes, and dates and times in the units
/// that fit them. It takes no nested, dictionary, decimal, interval,
/// fixed-size binary or null column: on some of those the schema conversion
/// or the writer panics.
pub open spec fn field_supported(field: Field) -> bool {
    ||| field_numeric(field) is Some
    ||| field_bytes(field) is Some
    ||| field_temporal(field) matches Some(temporal) && unit_fits(temporal, field_unit(field))
}

/// Every field is of a data type that the encoder takes.
pub open spec fn all_supported(fields: Seq<Field>) -> bool {
    forall|i: int| 0 <= i < fields.len() ==> #[trigger] field_supported(fields[i])
}

/// Whether the encoder can write the column of `field` with the properties:
/// nothing is compressed, since no codec is built in, and the values are
/// encoded plainly or as the writer version has it by default. Every other
/// encoding is defined for some columns only, and a writer panics where it
/// is not.
pub open spec fn props_serve(props: WriterProperties, field: Field) -> bool {
    &&& props_codec(props, field) == Codec::Uncompressed
    &&& props_encoding(props, field) is None || props_encoding(props, field) == Some(
        ValueEncoding::Plain,
    )
}

/// The encoder can write every column with the properties.
pub open spec fn all_served(props: WriterProperties, fields: Seq<Field>) -> bool {
    forall|i: int| 0 <= i < fields.len() ==> #[trigger] props_serve(props, fields[i])
}

/// Whether the encoder takes columns of the field's data type.
pub fn field_is_supported(field: &Field) -> (supported: bool)
    ensures
        supported == field_supported(*field),
{
    if field_numeric_kind(field).is_some() || field_bytes_kind(field).is_some() {
        return true;
    }
    let unit = field_time_unit(field);
    match field_temporal_kind(field) {
        Some(Temporal::Time32) => match unit {
            Some(Unit::Second) => true,
            Some(Unit::Millisecond) => true,
            _ => false,
        },
        Some(Temporal::Time64) => match unit {
            Some(Unit::Microsecond) => true,
            Some(Unit::Nanosecond) => true,
            _ => false,
        },
        Some(_) => true,
        None => false,
    }
}

/// Whether the encoder can write the column of `field` with the properties.
pub fn props_can_serve(props: &WriterProperties, field: &Field) -> (served: bool)
    ensures
        served == props_serve(*props, *field),
{
    let plain = match column_encoding(props, field) {
        None => true,
        Some(ValueEncoding::Plain) => true,
        Some(_) => false,
    };
    let uncompressed = match column_codec(props, field) {
        Codec::Uncompressed => true,
        _ => false,
    };
    plain && uncompressed
}

} // verus!

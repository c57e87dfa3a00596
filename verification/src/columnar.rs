//! The Arrow and Parquet values that the encoder moves around, and the few
//! operations on them that the rest of the crate relies on.
//!
//! Nothing in this module is proved. Each function below hands its arguments
//! to one function of `arrow` or `parquet`; its contract is taken from that
//! function's source and is what every proof elsewhere in the crate rests on.
//! The types are opaque: a value can be stored, moved and compared in
//! specifications, and nothing else.

use crate::column_type::{
    all_served, all_supported, BytesKind, Codec, Numeric, Temporal, Unit, ValueEncoding,
};
use arrow::array::ArrayData;
use arrow::datatypes::{DataType, Field, Schema, TimeUnit};
use parquet::basic::{Compression, Encoding};
use parquet::arrow::arrow_writer::{ArrowColumnChunk, ArrowColumnWriter, ArrowLeafColumn};
use parquet::errors::ParquetError;
use parquet::file::properties::WriterProperties;
use std::sync::Arc;
use vstd::prelude::*;

verus! {

#[verifier::external_type_specification]
#[verifier::external_body]
pub struct ExArrayData(ArrayData);

#[verifier::external_type_specification]
#[verifier::external_body]
pub struct ExField(Field);

#[verifier::external_type_specification]
#[verifier::external_body]
pub struct ExSchema(Schema);

#[verifier::external_type_specification]
#[verifier::external_body]
pub struct ExArrowLeafColumn(ArrowLeafColumn);

#[verifier::external_type_specification]
#[verifier::external_body]
pub struct ExArrowColumnWriter(ArrowColumnWriter);

#[verifier::external_type_specification]
#[verifier::external_body]
pub struct ExArrowColumnChunk(ArrowColumnChunk);

#[verifier::external_type_specification]
#[verifier::external_body]
pub struct ExParquetError(ParquetError);

#[verifier::external_type_specification]
#[verifier::external_body]
pub struct ExWriterProperties(WriterProperties);

/// The number of elements of an array: what `ArrayData::len` returns.
pub uninterp spec fn array_len(data: ArrayData) -> nat;

/// The first `length` elements of an array: what `ArrayData::slice(0, length)`
/// returns.
pub uninterp spec fn array_prefix(data: ArrayData, length: nat) -> ArrayData;

/// The fields of a schema, in order: what `Schema::fields` holds.
pub uninterp spec fn schema_fields(schema: Schema) -> Seq<Field>;

/// The name of a field: what `Field::name` returns.
pub uninterp spec fn field_name(field: Field) -> Seq<char>;

/// Whether a field admits nulls: what `Field::is_nullable` returns.
pub uninterp spec fn field_nullable(field: Field) -> bool;

/// The data type of a field, that `Field::data_type` returns, where it is a
/// boolean or a number, and `None` for every other type.
pub uninterp spec fn field_numeric(field: Field) -> Option<Numeric>;

/// The data type of a field where it is text or bytes, and `None` for every
/// other type.
pub uninterp spec fn field_bytes(field: Field) -> Option<BytesKind>;

/// The data type of a field where it is a date or a time, without its unit,
/// and `None` for every other type.
pub uninterp spec fn field_temporal(field: Field) -> Option<Temporal>;

/// The unit of the data type of a field where it is a timestamp, a time of
/// day or a duration, and `None` for every other type.
pub uninterp spec fn field_unit(field: Field) -> Option<Unit>;

/// The codec with which the properties have the column of a field
/// compressed: what `WriterProperties::compression` returns for the column
/// of the field's name, without the level.
pub uninterp spec fn props_codec(props: WriterProperties, field: Field) -> Codec;

/// The encoding that the properties set for the values of the column of a
/// field, if they set one: what `WriterProperties::encoding` returns for the
/// column of the field's name.
pub uninterp spec fn props_encoding(props: WriterProperties, field: Field) -> Option<
    ValueEncoding,
>;

/// Whether a column writer was made with properties that compress nothing
/// and encode the values plainly or by the default of the writer version.
pub uninterp spec fn writer_plain(writer: ArrowColumnWriter) -> bool;

/// Whether the array has the data type of the field: what `DataType`'s `==`
/// says of `Field::data_type` and `ArrayData::data_type`.
pub uninterp spec fn type_matches(field: Field, data: ArrayData) -> bool;

/// The number of nulls among the elements of an array: what
/// `ArrayData::null_count` returns.
pub uninterp spec fn array_nulls(data: ArrayData) -> nat;

/// The number of values that a writer with these properties hands to its
/// encoder at a time: what `WriterProperties::write_batch_size` returns.
pub uninterp spec fn props_batch_size(props: WriterProperties) -> nat;

/// The write batch size of the properties that a column writer was made
/// with.
pub uninterp spec fn writer_batch_size(writer: ArrowColumnWriter) -> nat;

/// Whether a column writer encodes the Parquet column that the schema
/// conversion derives from `field` as a top-level column.
pub uninterp spec fn made_for(writer: ArrowColumnWriter, field: Field) -> bool;

/// Whether a leaf column is one of a top-level column that `field`
/// describes: it holds an array of the field's data type, with the levels
/// that `compute_leaves` gives under the field, and no null where the field
/// admits none.
pub uninterp spec fn leaf_of(leaf: ArrowLeafColumn, field: Field) -> bool;

/// The leaf columns into which `compute_leaves` decomposes an array that is
/// written under `field`.
pub uninterp spec fn field_leaves(field: Field, data: ArrayData) -> Seq<ArrowLeafColumn>;

/// Whether `ArrowColumnWriter::write` returns `Ok` when the writer is given
/// the leaf column.
pub uninterp spec fn write_accepts(writer: ArrowColumnWriter, leaf: ArrowLeafColumn) -> bool;

/// The writer as `ArrowColumnWriter::write` leaves it when it has accepted
/// the leaf column.
pub uninterp spec fn writer_after(
    writer: ArrowColumnWriter,
    leaf: ArrowLeafColumn,
) -> ArrowColumnWriter;

/// Whether `ArrowColumnWriter::close` returns `Ok` on the writer.
pub uninterp spec fn writer_closes(writer: ArrowColumnWriter) -> bool;

/// The leaf columns that a column writer has accepted so far, oldest first:
/// one entry for each call of `ArrowColumnWriter::write` that returned `Ok`.
pub uninterp spec fn written_leaves(writer: ArrowColumnWriter) -> Seq<ArrowLeafColumn>;

/// The leaf columns that went into a finished column chunk, oldest first.
pub uninterp spec fn chunk_leaves(chunk: ArrowColumnChunk) -> Seq<ArrowLeafColumn>;

/// The writer takes the leaf column: there is a field that the writer was
/// made for and that the leaf column is one of.
pub open spec fn fitting(writer: ArrowColumnWriter, leaf: ArrowLeafColumn) -> bool {
    exists|field: Field| #[trigger] made_for(writer, field) && leaf_of(leaf, field)
}

/// `ArrayData::len`: the number of elements.
#[verifier::external_body]
pub(crate) fn array_rows(data: &ArrayData) -> (rows: usize)
    ensures
        rows == array_len(*data),
{
    data.len()
}

/// `ArrayData::clone`: a second handle on the same buffers, equal to the
/// first.
#[verifier::external_body]
pub(crate) fn array_clone(data: &ArrayData) -> (copy: ArrayData)
    ensures
        copy == *data,
{
    data.clone()
}

/// `ArrayData::slice` at offset 0. It panics when the slice would reach past
/// the end of the array, which the precondition rules out; the result has
/// exactly `length` elements.
#[verifier::external_body]
pub(crate) fn array_slice(data: &ArrayData, length: usize) -> (part: ArrayData)
    requires
        length <= array_len(*data),
    ensures
        part == array_prefix(*data, length as nat),
        array_len(part) == length,
{
    data.slice(0, length)
}

/// `Field::new` with the type `Float32`, nullable.
#[verifier::external_body]
pub(crate) fn nullable_float_field(name: String) -> (field: Field)
    ensures
        field_name(field) == name@,
        field_nullable(field),
        field_numeric(field) == Some(Numeric::Float32),
        field_bytes(field) is None,
{
    Field::new(name, DataType::Float32, true)
}

/// `Field::new` with the type `Utf8`, nullable.
#[verifier::external_body]
pub(crate) fn nullable_text_field(name: String) -> (field: Field)
    ensures
        field_name(field) == name@,
        field_nullable(field),
        field_bytes(field) == Some(BytesKind::Utf8),
        field_numeric(field) is None,
{
    Field::new(name, DataType::Utf8, true)
}

/// `Schema::new`: a schema of the given fields, in their order, behind a
/// shared handle.
#[verifier::external_body]
pub(crate) fn new_schema(fields: Vec<Field>) -> (schema: Arc<Schema>)
    ensures
        schema_fields(*schema) == fields@,
{
    Arc::new(Schema::new(fields))
}

/// `Field::is_nullable`.
#[verifier::external_body]
pub(crate) fn field_is_nullable(field: &Field) -> (nullable: bool)
    ensures
        nullable == field_nullable(*field),
{
    field.is_nullable()
}

/// `Field::data_type`, where it is a boolean or a number.
#[verifier::external_body]
pub(crate) fn field_numeric_kind(field: &Field) -> (kind: Option<Numeric>)
    ensures
        kind == field_numeric(*field),
{
    match field.data_type() {
        DataType::Boolean => Some(Numeric::Boolean),
        DataType::Int8 => Some(Numeric::Int8),
        DataType::Int16 => Some(Numeric::Int16),
        DataType::Int32 => Some(Numeric::Int32),
        DataType::Int64 => Some(Numeric::Int64),
        DataType::UInt8 => Some(Numeric::UInt8),
        DataType::UInt16 => Some(Numeric::UInt16),
        DataType::UInt32 => Some(Numeric::UInt32),
        DataType::UInt64 => Some(Numeric::UInt64),
        DataType::Float16 => Some(Numeric::Float16),
        DataType::Float32 => Some(Numeric::Float32),
        DataType::Float64 => Some(Numeric::Float64),
        _ => None,
    }
}

/// `Field::data_type`, where it is text or bytes.
#[verifier::external_body]
pub(crate) fn field_bytes_kind(field: &Field) -> (kind: Option<BytesKind>)
    ensures
        kind == field_bytes(*field),
{
    match field.data_type() {
        DataType::Binary => Some(BytesKind::Binary),
        DataType::LargeBinary => Some(BytesKind::LargeBinary),
        DataType::BinaryView => Some(BytesKind::BinaryView),
        DataType::Utf8 => Some(BytesKind::Utf8),
        DataType::LargeUtf8 => Some(BytesKind::LargeUtf8),
        DataType::Utf8View => Some(BytesKind::Utf8View),
        _ => None,
    }
}

/// `Field::data_type`, where it is a date or a time.
#[verifier::external_body]
pub(crate) fn field_temporal_kind(field: &Field) -> (kind: Option<Temporal>)
    ensures
        kind == field_temporal(*field),
{
    match field.data_type() {
        DataType::Timestamp(_, _) => Some(Temporal::Timestamp),
        DataType::Date32 => Some(Temporal::Date32),
        DataType::Date64 => Some(Temporal::Date64),
        DataType::Time32(_) => Some(Temporal::Time32),
        DataType::Time64(_) => Some(Temporal::Time64),
        DataType::Duration(_) => Some(Temporal::Duration),
        _ => None,
    }
}

/// The unit inside `Field::data_type`, where it has one.
#[verifier::external_body]
pub(crate) fn field_time_unit(field: &Field) -> (unit: Option<Unit>)
    ensures
        unit == field_unit(*field),
{
    let unit = match field.data_type() {
        DataType::Timestamp(unit, _) => unit,
        DataType::Time32(unit) | DataType::Time64(unit) | DataType::Duration(unit) => unit,
        _ => return None,
    };
    match unit {
        TimeUnit::Second => Some(Unit::Second),
        TimeUnit::Millisecond => Some(Unit::Millisecond),
        TimeUnit::Microsecond => Some(Unit::Microsecond),
        TimeUnit::Nanosecond => Some(Unit::Nanosecond),
    }
}

/// `WriterProperties::compression` for the column of the field's name.
#[verifier::external_body]
pub(crate) fn column_codec(props: &WriterProperties, field: &Field) -> (codec: Codec)
    ensures
        codec == props_codec(*props, *field),
{
    match props.compression(&field.name().as_str().into()) {
        Compression::UNCOMPRESSED => Codec::Uncompressed,
        Compression::SNAPPY => Codec::Snappy,
        Compression::GZIP(_) => Codec::Gzip,
        Compression::LZO => Codec::Lzo,
        Compression::BROTLI(_) => Codec::Brotli,
        Compression::LZ4 => Codec::Lz4,
        Compression::ZSTD(_) => Codec::Zstd,
        Compression::LZ4_RAW => Codec::Lz4Raw,
    }
}

/// `WriterProperties::encoding` for the column of the field's name.
#[verifier::external_body]
pub(crate) fn column_encoding(props: &WriterProperties, field: &Field) -> (encoding: Option<
    ValueEncoding,
>)
    ensures
        encoding == props_encoding(*props, *field),
{
    Some(match props.encoding(&field.name().as_str().into())? {
        Encoding::PLAIN => ValueEncoding::Plain,
        Encoding::PLAIN_DICTIONARY => ValueEncoding::PlainDictionary,
        Encoding::RLE => ValueEncoding::Rle,
        #[allow(deprecated)]
        Encoding::BIT_PACKED => ValueEncoding::BitPacked,
        Encoding::DELTA_BINARY_PACKED => ValueEncoding::DeltaBinaryPacked,
        Encoding::DELTA_LENGTH_BYTE_ARRAY => ValueEncoding::DeltaLengthByteArray,
        Encoding::DELTA_BYTE_ARRAY => ValueEncoding::DeltaByteArray,
        Encoding::RLE_DICTIONARY => ValueEncoding::RleDictionary,
        Encoding::BYTE_STREAM_SPLIT => ValueEncoding::ByteStreamSplit,
    })
}

/// `DataType`'s `==` on `Field::data_type` and `ArrayData::data_type`.
#[verifier::external_body]
pub(crate) fn array_has_type(field: &Field, data: &ArrayData) -> (same: bool)
    ensures
        same == type_matches(*field, *data),
{
    field.data_type() == data.data_type()
}

/// `ArrayData::null_count`.
#[verifier::external_body]
pub(crate) fn array_null_count(data: &ArrayData) -> (nulls: usize)
    ensures
        nulls == array_nulls(*data),
{
    data.null_count()
}

/// `WriterProperties::write_batch_size`.
#[verifier::external_body]
pub(crate) fn write_batch_size(props: &WriterProperties) -> (size: usize)
    ensures
        size == props_batch_size(*props),
{
    props.write_batch_size()
}

/// `parquet::arrow::arrow_writer::get_column_writers` for the Parquet schema
/// that `ArrowSchemaConverter` derives from `schema`. The conversion panics
/// on some data types, and the making of a writer panics where a codec is
/// not built in or an encoding is not defined for the column; the
/// precondition admits only fields of the data types that the encoder takes
/// and properties that it can serve. On those neither the conversion nor the
/// making of the writers fails: there is one writer per field, in the order
/// of the fields, made for the column that the field describes and with the
/// write batch size of the properties. A new writer holds nothing.
#[verifier::external_body]
pub(crate) fn fresh_column_writers(schema: &Arc<Schema>, props: &Arc<WriterProperties>) -> (result:
    Result<Vec<ArrowColumnWriter>, ParquetError>)
    requires
        all_supported(schema_fields(**schema)),
        all_served(**props, schema_fields(**schema)),
    ensures
        result is Ok,
        result matches Ok(writers) ==> {
            &&& writers@.len() == schema_fields(**schema).len()
            &&& forall|i: int|
                0 <= i < writers@.len() ==> (#[trigger] written_leaves(writers@[i])).len() == 0
            &&& forall|i: int|
                0 <= i < writers@.len() ==> #[trigger] made_for(
                    writers@[i],
                    schema_fields(**schema)[i],
                )
            &&& forall|i: int|
                0 <= i < writers@.len() ==> #[trigger] writer_batch_size(writers@[i])
                    == props_batch_size(**props)
            &&& forall|i: int| 0 <= i < writers@.len() ==> #[trigger] writer_plain(writers@[i])
        },
{
    let parquet = parquet::arrow::ArrowSchemaConverter::new()
        .with_coerce_types(props.coerce_types())
        .convert(schema)?;
    parquet::arrow::arrow_writer::get_column_writers(&parquet, props, schema)
}

/// `Schema::fields` and the length of what it returns.
#[verifier::external_body]
pub(crate) fn schema_width(schema: &Schema) -> (width: usize)
    ensures
        width == schema_fields(*schema).len(),
{
    schema.fields().len()
}

/// `Schema::fields` at one position, as a shared handle. Indexing panics past
/// the end, which the precondition rules out.
#[verifier::external_body]
pub(crate) fn schema_field(schema: &Schema, index: usize) -> (field: Arc<Field>)
    requires
        index < schema_fields(*schema).len(),
    ensures
        *field == schema_fields(*schema)[index as int],
{
    Arc::clone(&schema.fields()[index])
}

/// `parquet::arrow::arrow_writer::compute_leaves` on the array that `data`
/// describes (`arrow::array::make_array` turns the description into the array
/// handle that the function takes). The result depends on the field and the
/// array alone. Admitted are the arrays that a record batch admits under the
/// field, of the data types that the encoder takes: the array has the
/// field's data type, and no null where the field admits none. Such an array
/// is a leaf itself, and the function does not fail on it.
#[verifier::external_body]
pub(crate) fn compute_field_leaves(field: &Field, data: &ArrayData) -> (result: Result<
    Vec<ArrowLeafColumn>,
    ParquetError,
>)
    requires
        crate::column_type::field_supported(*field),
        type_matches(*field, *data),
        field_nullable(*field) || array_nulls(*data) == 0,
    ensures
        result is Ok,
        result matches Ok(leaves) ==> {
            &&& leaves@ == field_leaves(*field, *data)
            &&& forall|i: int| 0 <= i < leaves@.len() ==> #[trigger] leaf_of(leaves@[i], *field)
        },
{
    parquet::arrow::arrow_writer::compute_leaves(field, &arrow::array::make_array(data.clone()))
}

/// `ArrowColumnWriter::write`. It panics on a leaf column that does not fit
/// the column that the writer was made for and where the writer's encoding
/// is not defined for the column, and does not return where the write batch
/// size is zero; the precondition rules all three out. Whether it
/// returns `Ok` depends on the writer and the leaf column alone, and so does
/// the writer it leaves: one that has taken the leaf after everything it
/// held before. After an `Err` nothing is known of what the writer holds.
#[verifier::external_body]
pub(crate) fn write_leaf(writer: &mut ArrowColumnWriter, leaf: &ArrowLeafColumn) -> (result: Result<
    (),
    ParquetError,
>)
    requires
        fitting(*old(writer), *leaf),
        writer_batch_size(*old(writer)) != 0,
        writer_plain(*old(writer)),
    ensures
        writer_batch_size(*final(writer)) == writer_batch_size(*old(writer)),
        writer_plain(*final(writer)),
        forall|field: Field|
            #[trigger] made_for(*final(writer), field) == made_for(*old(writer), field),
        result is Ok <==> write_accepts(*old(writer), *leaf),
        result is Ok ==> *final(writer) == writer_after(*old(writer), *leaf),
        result is Ok ==> written_leaves(*final(writer)) == written_leaves(*old(writer)).push(*leaf),
{
    writer.write(leaf)
}

/// `ArrowColumnWriter::close`. Whether it returns `Ok` depends on the writer
/// alone. The chunk it returns holds what the writer had accepted.
#[verifier::external_body]
pub(crate) fn close_writer(writer: ArrowColumnWriter) -> (result: Result<
    ArrowColumnChunk,
    ParquetError,
>)
    ensures
        result is Ok <==> writer_closes(writer),
        result matches Ok(chunk) ==> chunk_leaves(chunk) == written_leaves(writer),
{
    writer.close()
}

/// The text of a Parquet error, through its `Display` impl.
#[verifier::external_body]
pub(crate) fn error_text(error: &ParquetError) -> (text: String) {
    error.to_string()
}

} // verus!

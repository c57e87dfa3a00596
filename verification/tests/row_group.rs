use arrow::array::{
    Array, ArrayData, BinaryArray, BinaryViewArray, BooleanArray, Date32Array, Date64Array,
    DurationMillisecondArray, Float16Array, Float32Array, Float64Array, Int16Array, Int32Array,
    Int64Array, Int8Array, LargeBinaryArray, LargeStringArray, StringArray, StringViewArray,
    Time32MillisecondArray, Time32SecondArray, Time64MicrosecondArray, Time64NanosecondArray,
    TimestampNanosecondArray, TimestampSecondArray, UInt16Array, UInt32Array, UInt64Array,
    UInt8Array,
};
use arrow::datatypes::{ArrowPrimitiveType, DataType, Field, Float16Type, Schema, TimeUnit};
use metadata_bench::batch::RowBatch;
use metadata_bench::driver::{batch_rows, encode_row_group};
use metadata_bench::encoder::RowGroupEncoder;
use metadata_bench::error::EncodeError;
use metadata_bench::file_type::FileType;
use metadata_bench::order::order_chunks;
use metadata_bench::worker::ColumnChunk;
use parquet::arrow::arrow_reader::ParquetRecordBatchReaderBuilder;
use parquet::arrow::ArrowSchemaConverter;
use parquet::file::metadata::RowGroupMetaData;
use parquet::basic::{Compression, Encoding};
use parquet::file::properties::{WriterProperties, WriterVersion};
use parquet::schema::types::ColumnPath;
use parquet::file::writer::SerializedFileWriter;
use std::sync::Arc;

type Half = <Float16Type as ArrowPrimitiveType>::Native;

fn floats(values: &[f32]) -> ArrayData {
    Float32Array::from(values.to_vec()).into_data()
}

fn strings(values: &[&str]) -> ArrayData {
    StringArray::from(values.to_vec()).into_data()
}

fn float_batch(columns: usize, first: f32, rows: usize) -> RowBatch {
    let arrays = (0..columns)
        .map(|column| {
            let values: Vec<f32> =
                (0..rows).map(|row| first + (column * 1000 + row) as f32).collect();
            floats(&values)
        })
        .collect();
    RowBatch::try_new(arrays).unwrap()
}

fn encoder_for(schema: &Arc<Schema>) -> RowGroupEncoder {
    let props = Arc::new(WriterProperties::builder().build());
    RowGroupEncoder::for_schema(Arc::clone(schema), &props).unwrap()
}

/// Writes the chunks as the one row group of a file in memory, and returns
/// the row group's metadata and the file.
fn write_file(schema: &Arc<Schema>, chunks: Vec<ColumnChunk>) -> (RowGroupMetaData, Vec<u8>) {
    write_file_with(schema, chunks, Arc::new(WriterProperties::builder().build()))
}

fn write_file_with(
    schema: &Arc<Schema>,
    chunks: Vec<ColumnChunk>,
    props: Arc<WriterProperties>,
) -> (RowGroupMetaData, Vec<u8>) {
    let parquet_schema = ArrowSchemaConverter::new().convert(schema).unwrap();
    let mut file: Vec<u8> = Vec::new();
    let mut writer =
        SerializedFileWriter::new(&mut file, parquet_schema.root_schema_ptr(), props).unwrap();
    let mut row_group = writer.next_row_group().unwrap();
    for chunk in chunks {
        chunk.into_data().append_to_row_group(&mut row_group).unwrap();
    }
    let metadata = row_group.close().unwrap();
    writer.close().unwrap();
    (metadata.as_ref().clone(), file)
}

/// Reads column `column` of a file of float columns back, row after row.
fn read_floats(file: Vec<u8>, column: usize) -> Vec<f32> {
    let reader = ParquetRecordBatchReaderBuilder::try_new(bytes::Bytes::from(file))
        .unwrap()
        .build()
        .unwrap();
    let mut values = Vec::new();
    for batch in reader {
        let batch = batch.unwrap();
        let array = batch.column(column).as_any().downcast_ref::<Float32Array>().unwrap().clone();
        values.extend(array.values().iter().copied());
    }
    values
}

#[test]
fn three_columns_two_batches_give_three_chunks_of_four_rows() {
    let schema = FileType::Float.schema(3);
    let mut encoder = encoder_for(&schema);
    encoder.encode_batch(&float_batch(3, 0.0, 2)).unwrap();
    encoder.encode_batch(&float_batch(3, 100.0, 2)).unwrap();
    assert_eq!(encoder.num_rows(), 4);
    let chunks = encoder.close().unwrap();
    assert_eq!(chunks.len(), 3);
    let indices: Vec<usize> = chunks.iter().map(|chunk| chunk.column_index()).collect();
    assert_eq!(indices, vec![0, 1, 2]);
    for chunk in &chunks {
        assert_eq!(chunk.num_rows(), 4);
    }
    let (metadata, _) = write_file(&schema, chunks);
    assert_eq!(metadata.num_columns(), 3);
    assert_eq!(metadata.num_rows(), 4);
    for column in 0..3 {
        assert_eq!(metadata.column(column).num_values(), 4);
    }
}

#[test]
fn failing_worker_of_column_one_is_reported() {
    let schema = FileType::Float.schema(3);
    let mut encoder = encoder_for(&schema);
    let batch = RowBatch::try_new(vec![
        floats(&[1.0, 2.0]),
        strings(&["a", "b"]),
        floats(&[3.0, 4.0]),
    ])
    .unwrap();
    encoder.encode_batch(&batch).unwrap();
    let error = encoder.close().unwrap_err();
    assert_eq!(error.column(), Some(1));
    assert!(matches!(error, EncodeError::Leaves { column: 1, .. }));
}

#[test]
fn every_column_holds_its_slices_in_submission_order() {
    let schema = FileType::Float.schema(2);
    let mut encoder = encoder_for(&schema);
    let batches = [
        (vec![1.0f32, 2.0], vec![10.0f32, 20.0]),
        (vec![3.0], vec![30.0]),
        (vec![4.0, 5.0, 6.0], vec![40.0, 50.0, 60.0]),
        (vec![7.0], vec![70.0]),
        (vec![8.0, 9.0], vec![80.0, 90.0]),
    ];
    for (left, right) in &batches {
        let batch = RowBatch::try_new(vec![floats(left), floats(right)]).unwrap();
        encoder.encode_batch(&batch).unwrap();
    }
    let chunks = encoder.close().unwrap();
    assert_eq!(chunks[0].num_rows(), 9);
    assert_eq!(chunks[1].num_rows(), 9);
    let (metadata, file) = write_file(&schema, chunks);
    assert_eq!(metadata.num_rows(), 9);
    assert_eq!(
        read_floats(file.clone(), 0),
        vec![1.0, 2.0, 3.0, 4.0, 5.0, 6.0, 7.0, 8.0, 9.0]
    );
    assert_eq!(
        read_floats(file, 1),
        vec![10.0, 20.0, 30.0, 40.0, 50.0, 60.0, 70.0, 80.0, 90.0]
    );
}

#[test]
fn string_columns_are_encoded_too() {
    let schema = FileType::String.schema(2);
    let mut encoder = encoder_for(&schema);
    let batch =
        RowBatch::try_new(vec![strings(&["a", "b", "c"]), strings(&["x", "y", "z"])]).unwrap();
    encoder.encode_batch(&batch).unwrap();
    let chunks = encoder.close().unwrap();
    let (metadata, file) = write_file(&schema, chunks);
    assert_eq!(metadata.num_rows(), 3);
    let reader = ParquetRecordBatchReaderBuilder::try_new(bytes::Bytes::from(file))
        .unwrap()
        .build()
        .unwrap();
    let mut second = Vec::new();
    for batch in reader {
        let batch = batch.unwrap();
        let array = batch.column(1).as_any().downcast_ref::<StringArray>().unwrap().clone();
        for row in 0..array.len() {
            second.push(array.value(row).to_string());
        }
    }
    assert_eq!(second, vec!["x", "y", "z"]);
}

#[test]
fn full_queue_makes_the_submitter_wait_for_the_worker() {
    let schema = FileType::Float.schema(2);
    let mut encoder = encoder_for(&schema);
    assert_eq!(encoder.queue_len(0), 0);
    encoder.encode_batch(&float_batch(2, 0.0, 3)).unwrap();
    assert_eq!(encoder.queue_len(0), 1);
    assert_eq!(encoder.queue_len(1), 1);
    encoder.encode_batch(&float_batch(2, 10.0, 3)).unwrap();
    assert_eq!(encoder.queue_len(0), 2);
    for round in 0..5 {
        encoder.encode_batch(&float_batch(2, 20.0 + round as f32, 3)).unwrap();
        assert_eq!(encoder.queue_len(0), 2);
        assert_eq!(encoder.queue_len(1), 2);
    }
    assert_eq!(encoder.num_rows(), 21);
    let chunks = encoder.close().unwrap();
    assert_eq!(chunks[0].num_rows(), 21);
    assert_eq!(chunks[1].num_rows(), 21);
    let (metadata, _) = write_file(&schema, chunks);
    assert_eq!(metadata.num_rows(), 21);
}

#[test]
fn run_worker_takes_the_oldest_slice() {
    let schema = FileType::Float.schema(2);
    let mut encoder = encoder_for(&schema);
    assert!(!encoder.run_worker(0));
    encoder.encode_batch(&float_batch(2, 0.0, 2)).unwrap();
    encoder.encode_batch(&float_batch(2, 5.0, 2)).unwrap();
    assert!(encoder.run_worker(1));
    assert_eq!(encoder.queue_len(1), 1);
    assert_eq!(encoder.queue_len(0), 2);
    assert!(encoder.run_worker(1));
    assert!(!encoder.run_worker(1));
    assert_eq!(encoder.queue_len(1), 0);
    let chunks = encoder.close().unwrap();
    let (_, file) = write_file(&schema, chunks);
    assert_eq!(read_floats(file, 1), vec![1000.0, 1001.0, 1005.0, 1006.0]);
}

#[test]
fn failure_on_a_later_slice_stops_the_row_group() {
    let schema = FileType::Float.schema(3);
    let mut encoder = encoder_for(&schema);
    let bad = RowBatch::try_new(vec![
        floats(&[1.0, 2.0]),
        strings(&["a", "b"]),
        floats(&[3.0, 4.0]),
    ])
    .unwrap();
    encoder.encode_batch(&float_batch(3, 0.0, 2)).unwrap();
    encoder.encode_batch(&bad).unwrap();
    // The queue of column 1 is full: its worker takes the first slice.
    encoder.encode_batch(&float_batch(3, 10.0, 2)).unwrap();
    assert_eq!(encoder.failed_column(), None);
    // Now the worker takes the slice that it cannot encode.
    let error = encoder.encode_batch(&float_batch(3, 20.0, 2)).unwrap_err();
    assert!(matches!(error, EncodeError::QueueClosed { column: 1 }));
    assert_eq!(encoder.failed_column(), Some(1));
    assert_eq!(encoder.num_rows(), 6);
    assert_eq!(encoder.num_offered_rows(), 8);
    // The column before the failed one got its slice, the one after it did not.
    assert_eq!(encoder.queue_len(0), 2);
    assert_eq!(encoder.queue_len(2), 2);
    let again = encoder.encode_batch(&float_batch(3, 30.0, 2)).unwrap_err();
    assert!(matches!(again, EncodeError::QueueClosed { column: 1 }));
    assert!(!encoder.run_worker(0));
    let error = encoder.close().unwrap_err();
    assert!(matches!(error, EncodeError::Leaves { column: 1, .. }));
}

#[test]
fn batch_of_the_wrong_width_is_rejected_before_anything_is_submitted() {
    let schema = FileType::Float.schema(3);
    let mut encoder = encoder_for(&schema);
    let error = encoder.encode_batch(&float_batch(2, 0.0, 2)).unwrap_err();
    assert!(matches!(error, EncodeError::ColumnCountMismatch { expected: 3, found: 2 }));
    assert_eq!(encoder.queue_len(0), 0);
    assert_eq!(encoder.queue_len(1), 0);
    assert_eq!(encoder.num_rows(), 0);
    assert_eq!(encoder.failed_column(), None);
    encoder.encode_batch(&float_batch(3, 0.0, 2)).unwrap();
    assert_eq!(encoder.close().unwrap().len(), 3);
}

#[test]
fn arrays_of_unequal_length_make_no_batch() {
    let error =
        RowBatch::try_new(vec![floats(&[1.0, 2.0]), floats(&[1.0, 2.0]), floats(&[1.0])])
            .err()
            .unwrap();
    assert!(matches!(
        error,
        EncodeError::RowCountMismatch { column: 2, expected: 2, found: 1 }
    ));
    let empty = RowBatch::try_new(Vec::new()).unwrap();
    assert_eq!(empty.num_rows(), 0);
    assert_eq!(empty.num_columns(), 0);
}

#[test]
fn slice_keeps_the_first_rows() {
    let batch = float_batch(2, 0.0, 5);
    let part = batch.slice(2);
    assert_eq!(part.num_rows(), 2);
    assert_eq!(part.num_columns(), 2);
    assert_eq!(part.column(1).len(), 2);
    let array = Float32Array::from(part.column(1).clone());
    assert_eq!(array.values().to_vec(), vec![1000.0, 1001.0]);
    assert_eq!(batch.num_rows(), 5);
    assert_eq!(batch.column(1).len(), 5);
}

#[test]
fn schema_and_writers_of_different_length_make_no_encoder() {
    let schema = FileType::Float.schema(3);
    let error = RowGroupEncoder::try_new(schema, Vec::new()).err().unwrap();
    assert!(matches!(error, EncodeError::SchemaMismatch { columns: 3, writers: 0 }));
}

#[test]
fn column_of_a_type_that_is_not_taken_makes_no_encoder() {
    let item = Arc::new(Field::new("item", DataType::Int32, true));
    for data_type in [
        DataType::List(item),
        DataType::Decimal128(10, 2),
        DataType::Time32(TimeUnit::Microsecond),
        DataType::Time64(TimeUnit::Second),
        DataType::FixedSizeBinary(4),
        DataType::Null,
    ] {
        let schema = Arc::new(Schema::new(vec![
            Field::new("col_0", DataType::Float32, true),
            Field::new("col_1", data_type, true),
        ]));
        let props = Arc::new(WriterProperties::builder().build());
        let error = RowGroupEncoder::column_writers(&schema, &props).err().unwrap();
        assert!(matches!(error, EncodeError::UnsupportedColumn { column: 1 }));
        let error = RowGroupEncoder::for_schema(schema, &props).err().unwrap();
        assert!(matches!(error, EncodeError::UnsupportedColumn { column: 1 }));
    }
}

#[test]
fn write_batch_size_of_zero_makes_no_encoder() {
    let schema = FileType::Float.schema(2);
    let props = Arc::new(WriterProperties::builder().set_write_batch_size(0).build());
    let error = RowGroupEncoder::column_writers(&schema, &props).err().unwrap();
    assert!(matches!(error, EncodeError::ZeroBatchSize));
    let error = RowGroupEncoder::for_schema(Arc::clone(&schema), &props).err().unwrap();
    assert!(matches!(error, EncodeError::ZeroBatchSize));
    let props = Arc::new(WriterProperties::builder().set_write_batch_size(1).build());
    let mut encoder = RowGroupEncoder::for_schema(Arc::clone(&schema), &props).unwrap();
    encoder.encode_batch(&float_batch(2, 0.0, 5)).unwrap();
    let chunks = encoder.close().unwrap();
    let (metadata, file) = write_file(&schema, chunks);
    assert_eq!(metadata.num_rows(), 5);
    assert_eq!(read_floats(file, 1), vec![1000.0, 1001.0, 1002.0, 1003.0, 1004.0]);
}

#[test]
fn properties_that_cannot_be_served_make_no_encoder() {
    let schema = FileType::Float.schema(3);
    let everywhere = [
        WriterProperties::builder().set_compression(Compression::SNAPPY).build(),
        WriterProperties::builder().set_compression(Compression::LZ4_RAW).build(),
        WriterProperties::builder().set_encoding(Encoding::DELTA_BINARY_PACKED).build(),
        WriterProperties::builder().set_encoding(Encoding::BYTE_STREAM_SPLIT).build(),
    ];
    for props in everywhere {
        let props = Arc::new(props);
        let error = RowGroupEncoder::column_writers(&schema, &props).err().unwrap();
        assert!(matches!(error, EncodeError::UnservedProperties { column: 0 }));
        let error = RowGroupEncoder::for_schema(Arc::clone(&schema), &props).err().unwrap();
        assert!(matches!(error, EncodeError::UnservedProperties { column: 0 }));
    }
    let one_column = [
        WriterProperties::builder()
            .set_column_compression(ColumnPath::from("col_1"), Compression::SNAPPY)
            .build(),
        WriterProperties::builder()
            .set_column_encoding(ColumnPath::from("col_1"), Encoding::RLE)
            .build(),
    ];
    for props in one_column {
        let props = Arc::new(props);
        let error = RowGroupEncoder::for_schema(Arc::clone(&schema), &props).err().unwrap();
        assert!(matches!(error, EncodeError::UnservedProperties { column: 1 }));
        assert_eq!(error.column(), Some(1));
    }
    // A column of a type that is not taken is reported as such, whatever the properties.
    let mixed = Arc::new(Schema::new(vec![Field::new("col_0", DataType::Null, true)]));
    let props = Arc::new(WriterProperties::builder().set_compression(Compression::SNAPPY).build());
    let error = RowGroupEncoder::for_schema(mixed, &props).err().unwrap();
    assert!(matches!(error, EncodeError::UnsupportedColumn { column: 0 }));
}

#[test]
fn field_of_a_column_is_handed_out() {
    let schema = FileType::String.schema(2);
    let field = RowGroupEncoder::field_at(&schema, 1).unwrap();
    assert_eq!(field.name(), "col_1");
    assert_eq!(field.data_type(), &DataType::Utf8);
    assert!(RowGroupEncoder::field_at(&schema, 2).is_none());
    let props = Arc::new(WriterProperties::builder().build());
    let mut writers = RowGroupEncoder::column_writers(&schema, &props).unwrap();
    let writer = writers.pop().unwrap();
    let mut worker = metadata_bench::worker::ColumnWorker::new(1, field, writer);
    worker.encode_slice(&strings(&["a", "b"])).unwrap();
    assert_eq!(worker.finish().unwrap().num_rows(), 2);
}

#[test]
fn columns_of_every_type_that_is_taken_are_encoded() {
    for props in [
        WriterProperties::builder().build(),
        WriterProperties::builder().set_writer_version(WriterVersion::PARQUET_2_0).build(),
        WriterProperties::builder().set_dictionary_enabled(false).build(),
        WriterProperties::builder()
            .set_writer_version(WriterVersion::PARQUET_2_0)
            .set_dictionary_enabled(false)
            .build(),
        WriterProperties::builder().set_encoding(Encoding::PLAIN).build(),
        WriterProperties::builder()
            .set_encoding(Encoding::PLAIN)
            .set_dictionary_enabled(false)
            .set_compression(Compression::UNCOMPRESSED)
            .build(),
    ] {
        encode_every_type(Arc::new(props));
    }
}

fn encode_every_type(props: Arc<WriterProperties>) {
    let columns: Vec<(DataType, ArrayData)> = vec![
        (DataType::Boolean, BooleanArray::from(vec![Some(true), None, Some(false)]).into_data()),
        (DataType::Int8, Int8Array::from(vec![Some(-1), None, Some(3)]).into_data()),
        (DataType::Int16, Int16Array::from(vec![Some(-1), None, Some(3)]).into_data()),
        (DataType::Int32, Int32Array::from(vec![Some(-1), None, Some(3)]).into_data()),
        (DataType::Int64, Int64Array::from(vec![Some(-1), None, Some(3)]).into_data()),
        (DataType::UInt8, UInt8Array::from(vec![Some(1), None, Some(3)]).into_data()),
        (DataType::UInt16, UInt16Array::from(vec![Some(1), None, Some(3)]).into_data()),
        (DataType::UInt32, UInt32Array::from(vec![Some(1), None, Some(u32::MAX)]).into_data()),
        (DataType::UInt64, UInt64Array::from(vec![Some(1), None, Some(u64::MAX)]).into_data()),
        (DataType::Float32, Float32Array::from(vec![Some(1.5), None, Some(3.0)]).into_data()),
        (DataType::Float64, Float64Array::from(vec![Some(1.5), None, Some(3.0)]).into_data()),
        (DataType::Utf8, StringArray::from(vec![Some("a"), None, Some("c")]).into_data()),
        (
            DataType::LargeUtf8,
            LargeStringArray::from(vec![Some("a"), None, Some("c")]).into_data(),
        ),
        (
            DataType::Binary,
            BinaryArray::from_opt_vec(vec![Some(b"a".as_slice()), None, Some(b"c".as_slice())])
                .into_data(),
        ),
        (
            DataType::LargeBinary,
            LargeBinaryArray::from_opt_vec(vec![
                Some(b"a".as_slice()),
                None,
                Some(b"c".as_slice()),
            ])
            .into_data(),
        ),
        (
            DataType::Float16,
            Float16Array::from(vec![Some(Half::from_f32(1.5)), None, Some(Half::from_f32(3.0))])
                .into_data(),
        ),
        (DataType::Date32, Date32Array::from(vec![Some(1), None, Some(3)]).into_data()),
        (DataType::Date64, Date64Array::from(vec![Some(86_400_000), None, Some(0)]).into_data()),
        (
            DataType::Timestamp(TimeUnit::Second, None),
            TimestampSecondArray::from(vec![Some(1), None, Some(3)]).into_data(),
        ),
        (
            DataType::Timestamp(TimeUnit::Nanosecond, None),
            TimestampNanosecondArray::from(vec![Some(1), None, Some(3)]).into_data(),
        ),
        (
            DataType::Duration(TimeUnit::Millisecond),
            DurationMillisecondArray::from(vec![Some(1), None, Some(3)]).into_data(),
        ),
        (
            DataType::Time32(TimeUnit::Second),
            Time32SecondArray::from(vec![Some(1), None, Some(3)]).into_data(),
        ),
        (
            DataType::Time32(TimeUnit::Millisecond),
            Time32MillisecondArray::from(vec![Some(1), None, Some(3)]).into_data(),
        ),
        (
            DataType::Time64(TimeUnit::Microsecond),
            Time64MicrosecondArray::from(vec![Some(1), None, Some(3)]).into_data(),
        ),
        (
            DataType::Time64(TimeUnit::Nanosecond),
            Time64NanosecondArray::from(vec![Some(1), None, Some(3)]).into_data(),
        ),
        (
            DataType::Utf8View,
            StringViewArray::from(vec![Some("a"), None, Some("c")]).into_data(),
        ),
        (
            DataType::BinaryView,
            BinaryViewArray::from(vec![Some(b"a".as_slice()), None, Some(b"c".as_slice())])
                .into_data(),
        ),
    ];
    let fields: Vec<Field> = columns
        .iter()
        .enumerate()
        .map(|(index, (data_type, _))| Field::new(format!("col_{index}"), data_type.clone(), true))
        .collect();
    let schema = Arc::new(Schema::new(fields));
    let mut encoder = RowGroupEncoder::for_schema(Arc::clone(&schema), &props).unwrap();
    let arrays: Vec<ArrayData> = columns.iter().map(|(_, data)| data.clone()).collect();
    let batch = RowBatch::try_new(arrays).unwrap();
    encoder.encode_batch(&batch).unwrap();
    encoder.encode_batch(&batch).unwrap();
    let chunks = encoder.close().unwrap();
    assert_eq!(chunks.len(), columns.len());
    let (metadata, file) = write_file_with(&schema, chunks, props);
    assert_eq!(metadata.num_rows(), 6);
    let reader = ParquetRecordBatchReaderBuilder::try_new(bytes::Bytes::from(file))
        .unwrap()
        .build()
        .unwrap();
    let mut rows = 0;
    for batch in reader {
        let batch = batch.unwrap();
        for (index, (_, data)) in columns.iter().enumerate() {
            assert_eq!(batch.column(index).null_count(), 2 * data.nulls().unwrap().null_count());
        }
        rows += batch.num_rows();
    }
    assert_eq!(rows, 6);
}

#[test]
fn column_that_admits_no_nulls_takes_arrays_without_nulls() {
    let schema = Arc::new(Schema::new(vec![
        Field::new("col_0", DataType::Utf8, false),
        Field::new("col_1", DataType::Int32, false),
    ]));
    let mut encoder = encoder_for(&schema);
    let batch = RowBatch::try_new(vec![
        strings(&["a", "b"]),
        Int32Array::from(vec![7, 8]).into_data(),
    ])
    .unwrap();
    encoder.encode_batch(&batch).unwrap();
    let chunks = encoder.close().unwrap();
    let (metadata, _) = write_file(&schema, chunks);
    assert_eq!(metadata.num_rows(), 2);

    let mut encoder = encoder_for(&schema);
    let batch = RowBatch::try_new(vec![
        strings(&["a", "b"]),
        Int32Array::from(vec![Some(7), None]).into_data(),
    ])
    .unwrap();
    encoder.encode_batch(&batch).unwrap();
    let error = encoder.close().err().unwrap();
    assert!(matches!(error, EncodeError::Leaves { column: 1, .. }));
}

#[test]
fn columns_before_a_failed_one_still_get_their_slices() {
    let schema = FileType::Float.schema(3);
    let mut encoder = encoder_for(&schema);
    let bad_last = RowBatch::try_new(vec![
        floats(&[1.0]),
        floats(&[2.0]),
        strings(&["x"]),
    ])
    .unwrap();
    let bad_first = RowBatch::try_new(vec![
        strings(&["x"]),
        floats(&[2.0]),
        floats(&[3.0]),
    ])
    .unwrap();
    encoder.encode_batch(&bad_last).unwrap();
    encoder.encode_batch(&float_batch(3, 0.0, 1)).unwrap();
    // Every queue is full. The worker of the last column fails on its oldest slice.
    let error = encoder.encode_batch(&float_batch(3, 10.0, 1)).unwrap_err();
    assert!(matches!(error, EncodeError::QueueClosed { column: 2 }));
    assert_eq!(encoder.failed_column(), Some(2));
    assert_eq!(encoder.num_rows(), 2);
    assert_eq!(encoder.num_offered_rows(), 3);
    // The fan-out still reaches the columns before the failed one: the first
    // column gets a slice that its worker will fail on.
    let error = encoder.encode_batch(&bad_first).unwrap_err();
    assert!(matches!(error, EncodeError::QueueClosed { column: 2 }));
    assert_eq!(encoder.failed_column(), Some(2));
    let error = encoder.encode_batch(&float_batch(3, 20.0, 1)).unwrap_err();
    assert!(matches!(error, EncodeError::QueueClosed { column: 2 }));
    // Now the worker of the first column reaches that slice.
    let error = encoder.encode_batch(&float_batch(3, 30.0, 1)).unwrap_err();
    assert!(matches!(error, EncodeError::QueueClosed { column: 0 }));
    assert_eq!(encoder.failed_column(), Some(0));
    assert_eq!(encoder.num_rows(), 2);
    assert_eq!(encoder.num_offered_rows(), 6);
    let error = encoder.close().err().unwrap();
    assert!(matches!(error, EncodeError::Leaves { column: 0, .. }));
}

#[test]
fn writers_are_made_for_the_columns_of_the_schema() {
    let schema = FileType::String.schema(3);
    let props = Arc::new(WriterProperties::builder().build());
    let writers = RowGroupEncoder::column_writers(&schema, &props).unwrap();
    assert_eq!(writers.len(), 3);
    let mut encoder = RowGroupEncoder::try_new(Arc::clone(&schema), writers).unwrap();
    assert_eq!(encoder.num_columns(), 3);
    let batch = RowBatch::try_new(vec![
        strings(&["a"]),
        strings(&["b"]),
        strings(&["c"]),
    ])
    .unwrap();
    encoder.encode_batch(&batch).unwrap();
    let chunks = encoder.close().unwrap();
    let (metadata, _) = write_file(&schema, chunks);
    assert_eq!(metadata.num_rows(), 1);
}

#[test]
fn nulls_are_encoded_as_nulls() {
    let schema = FileType::Float.schema(1);
    let mut encoder = encoder_for(&schema);
    let column = Float32Array::from(vec![Some(1.0), None, Some(3.0), None]).into_data();
    encoder.encode_batch(&RowBatch::try_new(vec![column]).unwrap()).unwrap();
    let chunks = encoder.close().unwrap();
    assert_eq!(chunks[0].num_rows(), 4);
    let (metadata, file) = write_file(&schema, chunks);
    assert_eq!(metadata.num_rows(), 4);
    let reader = ParquetRecordBatchReaderBuilder::try_new(bytes::Bytes::from(file))
        .unwrap()
        .build()
        .unwrap();
    let mut values = Vec::new();
    for batch in reader {
        let batch = batch.unwrap();
        let array = batch.column(0).as_any().downcast_ref::<Float32Array>().unwrap().clone();
        values.extend(array.iter());
    }
    assert_eq!(values, vec![Some(1.0), None, Some(3.0), None]);
}

#[test]
fn row_group_has_exactly_the_target_rows() {
    let schema = FileType::Float.schema(2);
    for target in [0usize, 1, 99, 100, 101, 250, 1000] {
        let rows = batch_rows(target);
        assert_eq!(rows, target.min(100));
        let batch = float_batch(2, 0.0, rows);
        let chunks = encode_row_group(&batch, target, encoder_for(&schema)).unwrap();
        assert_eq!(chunks.len(), 2);
        assert_eq!(chunks[0].column_index(), 0);
        assert_eq!(chunks[1].column_index(), 1);
        assert_eq!(chunks[0].num_rows(), target);
        assert_eq!(chunks[1].num_rows(), target);
        let (metadata, file) = write_file(&schema, chunks);
        assert_eq!(metadata.num_rows() as usize, target);
        let values = read_floats(file, 1);
        assert_eq!(values.len(), target);
        for (row, value) in values.iter().enumerate() {
            assert_eq!(*value, (1000 + row % 100) as f32);
        }
    }
}

#[test]
fn row_group_fails_with_the_failure_of_its_worker() {
    let schema = FileType::Float.schema(2);
    let batch = RowBatch::try_new(vec![floats(&[1.0, 2.0]), strings(&["a", "b"])]).unwrap();
    let error = encode_row_group(&batch, 20, encoder_for(&schema)).err().unwrap();
    assert!(matches!(error, EncodeError::Leaves { column: 1, .. }));
    let narrow = float_batch(1, 0.0, 2);
    let error = encode_row_group(&narrow, 20, encoder_for(&schema)).err().unwrap();
    assert!(matches!(error, EncodeError::ColumnCountMismatch { expected: 2, found: 1 }));
}

#[test]
fn chunks_are_put_back_in_column_order() {
    let schema = FileType::Float.schema(4);
    let mut encoder = encoder_for(&schema);
    encoder.encode_batch(&float_batch(4, 0.0, 1)).unwrap();
    let mut chunks = encoder.close().unwrap();
    // Hand them over as if the workers had finished in another order.
    chunks.swap(0, 2);
    chunks.swap(1, 3);
    let shuffled: Vec<usize> = chunks.iter().map(|chunk| chunk.column_index()).collect();
    assert_eq!(shuffled, vec![2, 3, 0, 1]);
    let ordered = order_chunks(chunks, 4).unwrap();
    let indices: Vec<usize> = ordered.iter().map(|chunk| chunk.column_index()).collect();
    assert_eq!(indices, vec![0, 1, 2, 3]);
    let (_, file) = write_file(&schema, ordered);
    assert_eq!(read_floats(file, 3), vec![3000.0]);
}

#[test]
fn missing_and_misplaced_chunks_are_reported() {
    let schema = FileType::Float.schema(2);
    let mut encoder = encoder_for(&schema);
    encoder.encode_batch(&float_batch(2, 0.0, 1)).unwrap();
    let mut chunks = encoder.close().unwrap();
    let last = chunks.pop().unwrap();
    assert_eq!(last.column_index(), 1);
    let error = order_chunks(chunks, 2).err().unwrap();
    assert!(matches!(error, EncodeError::Missing { column: 1 }));
    let error = order_chunks(vec![last], 1).err().unwrap();
    assert!(matches!(error, EncodeError::Misplaced { column: 1 }));

    let mut first = encoder_for(&schema);
    first.encode_batch(&float_batch(2, 0.0, 1)).unwrap();
    let mut second = encoder_for(&schema);
    second.encode_batch(&float_batch(2, 0.0, 1)).unwrap();
    let mut twice = first.close().unwrap();
    twice.truncate(1);
    let mut other = second.close().unwrap();
    other.truncate(1);
    twice.append(&mut other);
    let error = order_chunks(twice, 2).err().unwrap();
    assert!(matches!(error, EncodeError::Misplaced { column: 0 }));
}

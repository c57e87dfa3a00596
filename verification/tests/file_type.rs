use arrow::datatypes::DataType;
use metadata_bench::file_type::{column_name, column_seed, FileType};
use metadata_bench::parquet_file::ParquetFileSpecBuilder;
use metadata_bench::text::{decimal, joined};
use std::path::PathBuf;

#[test]
fn file_types_have_their_labels() {
    assert_eq!(FileType::Float.label(), "Float32");
    assert_eq!(FileType::String.label(), "String");
    assert_eq!(FileType::Float.variant_name(), "Float");
    assert_eq!(FileType::String.variant_name(), "String");
    assert_eq!(FileType::Float.variant_name(), format!("{:?}", FileType::Float));
    assert_eq!(FileType::String.variant_name(), format!("{:?}", FileType::String));
}

#[test]
fn columns_are_named_by_their_position() {
    assert_eq!(column_name(0), "col_0");
    assert_eq!(column_name(7), "col_7");
    assert_eq!(column_name(10), "col_10");
    assert_eq!(column_name(99_999), "col_99999");
}

#[test]
fn float_schema_has_nullable_float_columns() {
    let schema = FileType::Float.schema(12);
    assert_eq!(schema.fields().len(), 12);
    for (index, field) in schema.fields().iter().enumerate() {
        assert_eq!(field.name(), &format!("col_{index}"));
        assert_eq!(field.data_type(), &DataType::Float32);
        assert!(field.is_nullable());
    }
}

#[test]
fn string_schema_has_nullable_string_columns() {
    let schema = FileType::String.schema(3);
    assert_eq!(schema.fields().len(), 3);
    for (index, field) in schema.fields().iter().enumerate() {
        assert_eq!(field.name(), &format!("col_{index}"));
        assert_eq!(field.data_type(), &DataType::Utf8);
        assert!(field.is_nullable());
    }
    assert!(FileType::String.schema(0).fields().is_empty());
}

#[test]
fn columns_of_a_batch_get_consecutive_seeds() {
    assert_eq!(column_seed(0, 100, 0), Some(0));
    assert_eq!(column_seed(0, 100, 99), Some(99));
    assert_eq!(column_seed(3, 100, 7), Some(307));
    assert_eq!(column_seed(usize::MAX, 1, 0), Some(usize::MAX as u64));
    assert_eq!(column_seed(usize::MAX, 2, 0), None);
    assert_eq!(column_seed(usize::MAX, 1, 1), None);
}

#[test]
fn numbers_are_written_in_decimal() {
    assert_eq!(decimal(0), "0");
    assert_eq!(decimal(9), "9");
    assert_eq!(decimal(10), "10");
    assert_eq!(decimal(1_005), "1005");
    assert_eq!(decimal(u128::MAX), "340282366920938463463374607431768211455");
    assert_eq!(joined("col_", "17"), "col_17");
    assert_eq!(joined("", ""), "");
}

#[test]
fn file_is_described_on_one_line() {
    let spec = ParquetFileSpecBuilder::new()
        .with_path(PathBuf::from("output/String_data_1000_cols.parquet"))
        .with_file_type(FileType::String)
        .with_columns(1000)
        .with_row_groups(20)
        .with_rows_per_row_group(1_000)
        .build();
    assert_eq!(spec.description(), " String 1000 cols 20 row groups");
    let spec = ParquetFileSpecBuilder::new()
        .with_path(PathBuf::from("f"))
        .with_file_type(FileType::Float)
        .with_columns(0)
        .with_row_groups(1)
        .with_rows_per_row_group(5)
        .build();
    assert_eq!(spec.description(), " Float 0 cols 1 row groups");
}

#[test]
fn builder_needs_every_setting() {
    assert!(!ParquetFileSpecBuilder::new().is_complete());
    assert_eq!(ParquetFileSpecBuilder::new().missing(), Some("path"));
    let builder = ParquetFileSpecBuilder::new().with_path(PathBuf::from("f"));
    assert_eq!(builder.missing(), Some("file_type"));
    let builder = builder.with_file_type(FileType::Float);
    assert_eq!(builder.missing(), Some("columns"));
    let builder = builder.with_columns(1);
    assert_eq!(builder.missing(), Some("row_groups"));
    let builder = builder.with_row_groups(1);
    assert_eq!(builder.missing(), Some("rows_per_row_group"));
    assert_eq!(builder.with_rows_per_row_group(1).missing(), None);
    assert!(ParquetFileSpecBuilder::default().try_build().is_none());
    let partial = ParquetFileSpecBuilder::new()
        .with_path(PathBuf::from("f"))
        .with_file_type(FileType::Float)
        .with_columns(3)
        .with_row_groups(1);
    assert!(!partial.is_complete());
    let complete = partial.with_rows_per_row_group(5);
    assert!(complete.is_complete());
    let spec = complete.try_build().unwrap();
    assert_eq!(spec.rows_per_row_group(), 5);
    assert_eq!(spec.columns(), 3);
}

#[test]
fn later_setting_replaces_the_earlier_one() {
    let spec = ParquetFileSpecBuilder::new()
        .with_columns(3)
        .with_path(PathBuf::from("first"))
        .with_file_type(FileType::Float)
        .with_row_groups(1)
        .with_rows_per_row_group(5)
        .with_columns(4)
        .with_path(PathBuf::from("second"))
        .with_file_type(FileType::String)
        .build();
    assert_eq!(spec.columns(), 4);
    assert_eq!(spec.path(), &PathBuf::from("second"));
    assert_eq!(spec.file_type(), FileType::String);
    assert_eq!(spec.row_groups(), 1);
}

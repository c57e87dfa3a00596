use metadata_bench::file_type::FileType;
use metadata_bench::parquet_file::ParquetFileSpecBuilder;
use std::path::PathBuf;

#[test]
fn builder_keeps_every_setting() {
    let spec = ParquetFileSpecBuilder::new()
        .with_path(PathBuf::from("output/Float32_data_100_cols.parquet"))
        .with_file_type(FileType::Float)
        .with_columns(100)
        .with_row_groups(20)
        .with_rows_per_row_group(1_000)
        .build();
    assert_eq!(spec.path(), &PathBuf::from("output/Float32_data_100_cols.parquet"));
    assert_eq!(spec.file_type(), FileType::Float);
    assert_eq!(spec.columns(), 100);
    assert_eq!(spec.row_groups(), 20);
    assert_eq!(spec.rows_per_row_group(), 1_000);
}

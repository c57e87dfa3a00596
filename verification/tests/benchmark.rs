use arrow::array::{Array, Float32Array};
use bytes::Bytes;
use comfy_table::Table;
use metadata_bench::batch::RowBatch;
use metadata_bench::benchmark::{
    measure, LayoutProbe, MetadataParseBenchmark, MetadataParseResult, Timing, NUM_RUNS,
    WARM_UP_RUNS,
};
use metadata_bench::decode::{
    expect_data, index_needed, range_len, requested_range, BenchError, DecodeEvent, Decoder, Stage,
};
use metadata_bench::encoder::RowGroupEncoder;
use metadata_bench::file_type::FileType;
use parquet::arrow::ArrowSchemaConverter;
use parquet::file::properties::WriterProperties;
use parquet::file::writer::SerializedFileWriter;
use std::cell::Cell;
use std::path::PathBuf;
use std::sync::Arc;
use std::time::Duration;

fn timing(num_runs: usize, metadata_nanos: u64, index_nanos: u64) -> Timing {
    Timing::from_totals(
        num_runs,
        Duration::from_nanos(metadata_nanos),
        Duration::from_nanos(index_nanos),
    )
}

fn result() -> MetadataParseResult {
    MetadataParseResult::new(
        " Float 100 cols 20 row groups".to_string(),
        timing(10, 1_005, 3_000_000_000),
        timing(10, 505, 1_500_000_000),
        timing(4, 10, 0),
    )
}

/// A small Parquet file in memory: two float columns, two row groups.
fn small_file() -> Vec<u8> {
    let schema = FileType::Float.schema(2);
    let props = Arc::new(WriterProperties::builder().build());
    let parquet_schema = ArrowSchemaConverter::new().convert(&schema).unwrap();
    let mut file: Vec<u8> = Vec::new();
    let mut writer = SerializedFileWriter::new(
        &mut file,
        parquet_schema.root_schema_ptr(),
        Arc::clone(&props),
    )
    .unwrap();
    for group in 0..2 {
        let mut encoder = RowGroupEncoder::for_schema(Arc::clone(&schema), &props).unwrap();
        let values: Vec<f32> = (0..50).map(|row| (group * 50 + row) as f32).collect();
        let batch = RowBatch::try_new(vec![
            Float32Array::from(values.clone()).into_data(),
            Float32Array::from(values).into_data(),
        ])
        .unwrap();
        encoder.encode_batch(&batch).unwrap();
        let mut row_group = writer.next_row_group().unwrap();
        for chunk in encoder.close().unwrap() {
            chunk.into_data().append_to_row_group(&mut row_group).unwrap();
        }
        row_group.close().unwrap();
    }
    writer.close().unwrap();
    file
}

fn probe_file(file: &[u8]) -> LayoutProbe {
    let mut probe = LayoutProbe::begin(file.len() as u64).unwrap();
    loop {
        let range = probe.pending_range().clone();
        let bytes = Bytes::copy_from_slice(&file[range.start as usize..range.end as usize]);
        if !probe.supply(bytes).unwrap() {
            break;
        }
    }
    probe
}

#[test]
fn csv_headers_name_the_seven_columns() {
    assert_eq!(
        MetadataParseResult::csv_headers(),
        vec![
            "Description",
            "Parse Time Arrow 56 Metadata (ns)",
            "Parse Time Arrow 56 PageIndex (Column/Offset) (ns)",
            "Parse Time Arrow 57 Metadata (ns)",
            "Parse Time Arrow 57 PageIndex (Column/Offset) (ns)",
            "Parse Time Arrow 57 (no stats) Metadata (ns)",
            "Parse Time Arrow 57 (no stats) PageIndex (Column/Offset) (ns)",
        ]
    );
}

#[test]
fn averages_divide_the_totals_by_the_runs() {
    let timing = timing(10, 1_005, 3_000_000_000);
    assert!(timing.has_runs());
    assert_eq!(timing.num_runs(), 10);
    assert_eq!(timing.avg_metadata_parsing_duration(), Duration::from_nanos(100));
    assert_eq!(timing.avg_index_parsing_duration(), Duration::from_millis(300));
    let long = Timing::from_totals(3, Duration::new(10, 1), Duration::new(0, 2));
    assert_eq!(long.avg_metadata_parsing_duration(), Duration::new(3, 333_333_333));
    assert_eq!(long.avg_index_parsing_duration(), Duration::ZERO);
}

#[test]
fn timing_without_runs_has_no_averages() {
    assert!(!Timing::new(0).has_runs());
    assert!(Timing::new(1).has_runs());
    assert_eq!(Timing::new(7).avg_metadata_parsing_duration(), Duration::ZERO);
    if usize::BITS > 32 {
        let wrapped = (u32::MAX as usize) + 1;
        assert!(!Timing::new(wrapped).has_runs());
        assert!(Timing::new(wrapped + 2).has_runs());
        let timing = Timing::from_totals(wrapped + 2, Duration::from_nanos(9), Duration::ZERO);
        assert_eq!(timing.avg_metadata_parsing_duration(), Duration::from_nanos(4));
    }
}

#[test]
fn record_adds_to_the_totals() {
    let mut timing = Timing::new(2);
    assert!(timing.record(Duration::from_nanos(30), Duration::from_nanos(7)));
    assert!(timing.record(Duration::from_nanos(50), Duration::from_nanos(8)));
    assert_eq!(timing.avg_metadata_parsing_duration(), Duration::from_nanos(40));
    assert_eq!(timing.avg_index_parsing_duration(), Duration::from_nanos(7));
    assert!(!timing.record(Duration::MAX, Duration::ZERO));
    assert!(!timing.record(Duration::ZERO, Duration::MAX));
    assert_eq!(timing.avg_metadata_parsing_duration(), Duration::from_nanos(40));
    assert_eq!(timing.avg_index_parsing_duration(), Duration::from_nanos(7));
}

#[test]
fn timing_is_reported_on_three_lines() {
    assert_eq!(
        timing(10, 1_005, 3_000_000_000).to_text(),
        "num_runs: 10\n    Metadata parsing time 100ns\n    PageIndex (Column/Offset) 300ms\n"
    );
}

#[test]
fn csv_row_holds_the_averages_in_nanoseconds() {
    let result = result();
    assert!(result.has_runs());
    assert_eq!(
        result.to_csv_row(),
        vec![" Float 100 cols 20 row groups", "100", "300000000", "50", "150000000", "2", "0"]
    );
}

#[test]
fn table_gets_its_header_and_one_row_per_result() {
    let mut table = Table::new();
    MetadataParseResult::set_headers(&mut table);
    let header: Vec<String> =
        table.header().unwrap().cell_iter().map(|cell| cell.content()).collect();
    assert_eq!(
        header,
        vec![
            "Description",
            "Parse Time Arrow 56\n\nMetadata",
            "Parse Time Arrow 56\n\nPageIndex (Column/Offset)",
            "Parse Time Arrow 57\n\nMetadata",
            "Parse Time Arrow 57\n\nPageIndex (Column/Offset)",
            "Parse Time Arrow 57 (no stats)\n\nMetadata",
            "Parse Time Arrow 57 (no stats)\n\nPageIndex (Column/Offset)",
        ]
    );
    assert_eq!(table.row_iter().count(), 0);
    result().add_to_table(&mut table);
    result().add_to_table(&mut table);
    assert_eq!(table.row_iter().count(), 2);
    let row: Vec<String> =
        table.row(1).unwrap().cell_iter().map(|cell| cell.content()).collect();
    assert_eq!(
        row,
        vec![" Float 100 cols 20 row groups", "100ns", "300ms", "50ns", "150ms", "2ns", "0ns"]
    );
    assert_eq!(table.header().unwrap().cell_iter().count(), 7);
}

#[test]
fn result_is_reported_with_its_three_timings() {
    assert_eq!(
        result().to_text(),
        "MetadataParseResult:\n  description:  Float 100 cols 20 row groups\n  Arrow 56 Timing:\n\
         num_runs: 10\n    Metadata parsing time 100ns\n    PageIndex (Column/Offset) 300ms\n\n  \
         Arrow 57 Timing:\nnum_runs: 10\n    Metadata parsing time 50ns\n    PageIndex \
         (Column/Offset) 150ms\n\n  Arrow 57 Timing (no stats):\nnum_runs: 4\n    Metadata parsing \
         time 2ns\n    PageIndex (Column/Offset) 0ns\n\n"
    );
}

#[test]
fn result_without_runs_cannot_be_reported() {
    let result = MetadataParseResult::new(
        "none".to_string(),
        timing(10, 1, 1),
        timing(0, 1, 1),
        timing(10, 1, 1),
    );
    assert!(!result.has_runs());
}

#[test]
fn range_len_is_the_distance_between_the_ends() {
    assert_eq!(range_len(&(10..25)), Some(15));
    assert_eq!(range_len(&(7..7)), Some(0));
    assert_eq!(range_len(&(8..7)), None);
    assert_eq!(range_len(&(0..u64::MAX)), usize::try_from(u64::MAX).ok());
}

#[test]
fn decoder_has_to_ask_for_exactly_one_range() {
    let range = requested_range(Stage::Footer, DecodeEvent::NeedsData(vec![92..100])).unwrap();
    assert_eq!(range, 92..100);
    let error = requested_range(Stage::Metadata, DecodeEvent::NeedsData(vec![])).unwrap_err();
    assert!(matches!(
        error,
        BenchError::ExpectedOneRange { stage: Stage::Metadata, found: 0 }
    ));
    let error =
        requested_range(Stage::Index, DecodeEvent::NeedsData(vec![0..1, 4..9])).unwrap_err();
    assert!(matches!(error, BenchError::ExpectedOneRange { stage: Stage::Index, found: 2 }));
    let error = requested_range(Stage::Footer, DecodeEvent::Data).unwrap_err();
    assert!(matches!(error, BenchError::ExpectedRequest { stage: Stage::Footer }));
    let error = requested_range(Stage::Index, DecodeEvent::Finished).unwrap_err();
    assert!(matches!(error, BenchError::ExpectedRequest { stage: Stage::Index }));
}

#[test]
fn only_the_decoder_without_statistics_may_skip_the_index() {
    let request = DecodeEvent::NeedsData(vec![4..9]);
    for decoder in [Decoder::Arrow56, Decoder::Arrow57, Decoder::Arrow57NoStats] {
        assert!(index_needed(decoder, &request).unwrap());
    }
    assert!(!index_needed(Decoder::Arrow57NoStats, &DecodeEvent::Data).unwrap());
    for decoder in [Decoder::Arrow56, Decoder::Arrow57] {
        for event in [DecodeEvent::Data, DecodeEvent::Finished] {
            let error = index_needed(decoder, &event).unwrap_err();
            assert!(matches!(error, BenchError::ExpectedRequest { stage: Stage::Index }));
        }
    }
    let error = index_needed(Decoder::Arrow57NoStats, &DecodeEvent::Finished).unwrap_err();
    assert!(matches!(error, BenchError::UnexpectedFinish));
}

#[test]
fn decoder_has_to_end_with_the_metadata() {
    assert!(expect_data(&DecodeEvent::Data).is_ok());
    assert!(matches!(
        expect_data(&DecodeEvent::Finished).unwrap_err(),
        BenchError::ExpectedData
    ));
    assert!(matches!(
        expect_data(&DecodeEvent::NeedsData(vec![0..8])).unwrap_err(),
        BenchError::ExpectedData
    ));
}

#[test]
fn probe_finds_footer_metadata_and_index() {
    let file = small_file();
    let len = file.len() as u64;
    let mut probe = LayoutProbe::begin(len).unwrap();
    assert!(!probe.is_complete());
    let footer = probe.pending_range().clone();
    assert_eq!(footer, len - 8..len);
    let mut rounds = 0;
    loop {
        let range = probe.pending_range().clone();
        let bytes = Bytes::copy_from_slice(&file[range.start as usize..range.end as usize]);
        rounds += 1;
        if !probe.supply(bytes).unwrap() {
            break;
        }
    }
    assert_eq!(rounds, 3);
    assert!(probe.is_complete());
    let benchmark =
        MetadataParseBenchmark::new("small".to_string(), PathBuf::from("small.parquet"), probe);
    assert_eq!(benchmark.description(), "small");
    assert_eq!(benchmark.num_runs(), NUM_RUNS);
    assert_eq!(benchmark.file_len(), len);
    assert_eq!(benchmark.file_path(), &PathBuf::from("small.parquet"));
    let (footer_range, footer_bytes) = benchmark.part(Stage::Footer);
    assert_eq!(*footer_range, footer);
    assert_eq!(footer_bytes.as_ref(), &file[file.len() - 8..]);
    let (metadata_range, metadata_bytes) = benchmark.part(Stage::Metadata);
    assert_eq!(metadata_range.end, len - 8);
    assert_eq!(range_len(metadata_range), Some(metadata_bytes.len()));
    let (index_range, index_bytes) = benchmark.part(Stage::Index);
    assert!(index_range.end <= metadata_range.start);
    assert_eq!(range_len(index_range), Some(index_bytes.len()));
    let sizes = benchmark.sizes();
    assert_eq!(sizes, (len, 8, metadata_bytes.len(), index_bytes.len()));
}

#[test]
fn probe_refuses_a_file_that_is_too_short() {
    match LayoutProbe::begin(4).err().unwrap() {
        BenchError::Decoder { message } => {
            assert!(message.contains("at least 8 bytes"), "{message}")
        }
        other => panic!("unexpected failure {other:?}"),
    }
}

#[test]
fn probe_refuses_bytes_of_the_wrong_length() {
    let file = small_file();
    let mut probe = LayoutProbe::begin(file.len() as u64).unwrap();
    let error = probe.supply(Bytes::from(vec![0u8; 7])).unwrap_err();
    assert!(matches!(error, BenchError::WrongLength { found: 7 }));
    let error = probe.supply(Bytes::from(vec![0u8; 9])).unwrap_err();
    assert!(matches!(error, BenchError::WrongLength { found: 9 }));
    // The probe is as it was: the footer is still taken.
    assert_eq!(*probe.pending_range(), file.len() as u64 - 8..file.len() as u64);
    let footer = Bytes::copy_from_slice(&file[file.len() - 8..]);
    assert!(probe.supply(footer).unwrap());
}

#[test]
fn probe_reports_bytes_that_are_no_footer() {
    let mut probe = LayoutProbe::begin(100).unwrap();
    let error = probe.supply(Bytes::from(vec![0u8; 8])).unwrap_err();
    assert!(matches!(error, BenchError::Decoder { .. }));
}

#[test]
fn benchmark_times_the_decoder() {
    let file = small_file();
    let benchmark = MetadataParseBenchmark::new(
        "small".to_string(),
        PathBuf::from("small.parquet"),
        probe_file(&file),
    );
    assert!(benchmark.run_once_arrow_56().is_ok());
    let timing = benchmark.run_arrow_56().unwrap();
    assert_eq!(timing.num_runs(), NUM_RUNS);
    let calls = Cell::new(0usize);
    let stand_in = || {
        calls.set(calls.get() + 1);
        Ok((Duration::from_nanos(20), Duration::from_nanos(4)))
    };
    let skipped = || Ok((Duration::from_nanos(6), Duration::ZERO));
    let result = benchmark.run(stand_in, skipped).unwrap();
    assert_eq!(calls.get(), WARM_UP_RUNS + NUM_RUNS);
    let row = result.to_csv_row();
    assert_eq!(row.len(), 7);
    assert_eq!(row[0], "small");
    assert_eq!(&row[3..], ["20", "4", "6", "0"]);
}

#[test]
fn measure_warms_up_and_then_adds_the_runs() {
    let calls = Cell::new(0u64);
    let run_once = || {
        calls.set(calls.get() + 1);
        Ok((Duration::from_nanos(calls.get()), Duration::from_nanos(2 * calls.get())))
    };
    let timing = measure(4, run_once).unwrap();
    assert_eq!(calls.get(), WARM_UP_RUNS as u64 + 4);
    assert_eq!(timing.num_runs(), 4);
    // The measured runs are the 11th to the 14th: 11 + 12 + 13 + 14 = 50.
    assert_eq!(timing.avg_metadata_parsing_duration(), Duration::from_nanos(12));
    assert_eq!(timing.avg_index_parsing_duration(), Duration::from_nanos(25));
}

#[test]
fn measure_stops_at_the_first_failure() {
    let calls = Cell::new(0usize);
    let run_once = || {
        calls.set(calls.get() + 1);
        if calls.get() == 3 {
            Err(BenchError::ExpectedData)
        } else {
            Ok((Duration::ZERO, Duration::ZERO))
        }
    };
    assert!(matches!(measure(4, run_once).unwrap_err(), BenchError::ExpectedData));
    assert_eq!(calls.get(), 3);
    let too_long = || Ok((Duration::MAX, Duration::ZERO));
    assert!(matches!(measure(2, too_long).unwrap_err(), BenchError::TimeOverflow));
}

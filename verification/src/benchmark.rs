//! The results of the metadata-parsing benchmark: accumulated timings, their
//! averages, and how they are reported.

use crate::clock::{
    clock_elapsed, clock_now, duration_as_nanos, duration_checked_add, duration_checked_sum,
    duration_debug, duration_debug_text, duration_div, duration_nanos, duration_quotient,
    duration_zero,
};
use crate::columnar::error_text;
use crate::decode::{
    expect_data, index_needed, range_len, requested_range, Answer, BenchError, Decoder, Stage,
};
use crate::push_decoder::{
    bytes_len, bytes_length, decoder_answer, decoder_decoded, decoder_done, decoder_fed,
    decoder_for, decoder_new, decoder_push, decoder_try_decode, fits,
};
use crate::table::{labels, table_add_row, table_header, table_rows, table_set_header, texts};
use crate::text::{decimal, decimal_text, push_text};
use bytes::Bytes;
use comfy_table::Table;
use parquet::file::metadata::ParquetMetaDataPushDecoder;
use std::ops::Range;
use std::path::PathBuf;
use std::time::Duration;
use vstd::prelude::*;

verus! {

/// How often a file is parsed before the measured runs begin.
pub const WARM_UP_RUNS: usize = 10;

/// How often a file is parsed for its timing.
pub const NUM_RUNS: usize = 10;

/// A copy of a range.
fn copy_range(range: &Range<u64>) -> (copy: Range<u64>)
    ensures
        copy == *range,
{
    Range { start: range.start, end: range.end }
}

/// The search for the three parts of a file that the benchmark parses: the
/// footer, the metadata and the page indexes.
///
/// The decoder is asked what it needs, the caller reads those bytes from the
/// file and supplies them, and so on until the decoder has the metadata.
pub struct LayoutProbe {
    decoder: ParquetMetaDataPushDecoder,
    file_len: u64,
    stage: Option<Stage>,
    pending: Range<u64>,
    ranges: Vec<Range<u64>>,
    buffers: Vec<Bytes>,
}

/// The stage that follows `stage`, if one does.
pub open spec fn next_stage(stage: Stage) -> Option<Stage> {
    match stage {
        Stage::Footer => Some(Stage::Metadata),
        Stage::Metadata => Some(Stage::Index),
        Stage::Index => None,
    }
}

/// How many parts have been found before `stage` is reached.
pub open spec fn parts_before(stage: Option<Stage>) -> nat {
    match stage {
        Some(Stage::Footer) => 0,
        Some(Stage::Metadata) => 1,
        Some(Stage::Index) => 2,
        None => 3,
    }
}

/// The range of the footer that the decoder of a file of `file_len` bytes
/// asks for first, if it asks for exactly one range.
pub open spec fn first_request(file_len: u64) -> Option<Range<u64>> {
    if file_len >= 8 {
        decoder_answer(decoder_for(file_len)).request()
    } else {
        None
    }
}

/// The answer is what the exchange expects once the part of `stage` has
/// been supplied: a request for one more range after the footer and after
/// the metadata, and the metadata after the page indexes.
pub open spec fn expected_after(stage: Stage, answer: Answer) -> bool {
    match stage {
        Stage::Footer => answer.request() is Some,
        Stage::Metadata => answer.request() is Some,
        Stage::Index => answer is Data,
    }
}

impl LayoutProbe {
    /// The decoder, as it is now.
    pub closed spec fn decoder(&self) -> ParquetMetaDataPushDecoder {
        self.decoder
    }

    /// The part that the probe is waiting for, or `None` when all three have
    /// been found.
    pub closed spec fn stage(&self) -> Option<Stage> {
        self.stage
    }

    /// The range of the part that the probe is waiting for.
    pub closed spec fn pending(&self) -> Range<u64> {
        self.pending
    }

    /// The ranges of the parts found so far: footer, metadata, page indexes.
    pub closed spec fn ranges(&self) -> Seq<Range<u64>> {
        self.ranges@
    }

    /// The bytes of the parts found so far.
    pub closed spec fn buffers(&self) -> Seq<Bytes> {
        self.buffers@
    }

    /// The length of the file.
    pub closed spec fn file_len(&self) -> u64 {
        self.file_len
    }

    /// There is one range and one buffer for each part found so far, and
    /// each buffer holds as many bytes as its range is long.
    pub closed spec fn wf(&self) -> bool {
        &&& self.ranges@.len() == parts_before(self.stage)
        &&& self.buffers@.len() == parts_before(self.stage)
        &&& forall|k: int|
            0 <= k < self.ranges@.len() ==> fits(#[trigger] self.ranges@[k], self.buffers@[k])
    }

    /// Starts the search in a file of `file_len` bytes: the decoder is asked
    /// what it needs first, which has to be one range, that of the footer.
    /// It succeeds exactly when the decoder takes the length and asks for
    /// one range.
    pub fn begin(file_len: u64) -> (result: Result<LayoutProbe, BenchError>)
        ensures
            result is Ok <==> first_request(file_len) is Some,
            match result {
                Ok(probe) => {
                    &&& probe.wf()
                    &&& probe.stage() == Some(Stage::Footer)
                    &&& probe.file_len() == file_len
                    &&& Some(probe.pending()) == first_request(file_len)
                    &&& probe.decoder() == decoder_decoded(decoder_for(file_len))
                    &&& probe.ranges().len() == 0
                },
                Err(error) => {
                    ||| error is Decoder
                    ||| error matches BenchError::ExpectedRequest { stage } && stage == Stage::Footer
                    ||| error matches BenchError::ExpectedOneRange { stage, .. } && stage
                        == Stage::Footer
                },
            },
    {
        let mut decoder = match decoder_new(file_len) {
            Ok(decoder) => decoder,
            Err(cause) => {
                return Err(BenchError::Decoder { message: error_text(&cause) });
            },
        };
        let event = match decoder_try_decode(&mut decoder) {
            Ok(event) => event,
            Err(cause) => {
                return Err(BenchError::Decoder { message: error_text(&cause) });
            },
        };
        let pending = match requested_range(Stage::Footer, event) {
            Ok(range) => range,
            Err(error) => {
                return Err(error);
            },
        };
        Ok(
            LayoutProbe {
                decoder,
                file_len,
                stage: Some(Stage::Footer),
                pending,
                ranges: Vec::new(),
                buffers: Vec::new(),
            },
        )
    }

    /// The range whose bytes the caller has to read and supply next.
    pub fn pending_range(&self) -> (range: &Range<u64>)
        ensures
            *range == self.pending(),
    {
        &self.pending
    }

    /// Whether all three parts have been found.
    pub fn is_complete(&self) -> (complete: bool)
        ensures
            complete == (self.stage() is None),
    {
        self.stage.is_none()
    }

    /// Supplies the bytes of the pending range and asks the decoder what
    /// comes next. Returns whether there is another range to read.
    ///
    /// The bytes have to be as many as the pending range is long; otherwise
    /// they are refused as `WrongLength` and nothing is given to the decoder.
    /// After the footer and after the metadata the decoder has to ask for
    /// one more range; after the page indexes it has to have the metadata.
    /// Whatever else it answers is a breach, and the search is over. The
    /// call succeeds exactly when the bytes fit, the decoder takes them and
    /// its answer is the expected one.
    pub fn supply(&mut self, bytes: Bytes) -> (result: Result<bool, BenchError>)
        requires
            old(self).wf(),
            old(self).stage() is Some,
        ensures
            final(self).file_len() == old(self).file_len(),
            result is Ok <==> fits(old(self).pending(), bytes) && !decoder_done(old(self).decoder())
                && expected_after(
                old(self).stage()->Some_0,
                decoder_answer(decoder_fed(old(self).decoder(), old(self).pending(), bytes)),
            ),
            !fits(old(self).pending(), bytes) ==> result matches Err(
                BenchError::WrongLength { .. },
            ),
            match result {
                Ok(more) => {
                    &&& final(self).wf()
                    &&& final(self).stage() == next_stage(old(self).stage()->Some_0)
                    &&& more == (final(self).stage() is Some)
                    &&& final(self).ranges() == old(self).ranges().push(old(self).pending())
                    &&& final(self).buffers() == old(self).buffers().push(bytes)
                    &&& final(self).decoder() == decoder_decoded(
                        decoder_fed(old(self).decoder(), old(self).pending(), bytes),
                    )
                    &&& more ==> Some(final(self).pending()) == decoder_answer(
                        decoder_fed(old(self).decoder(), old(self).pending(), bytes),
                    ).request()
                },
                Err(error) => {
                    ||| error is Decoder
                    ||| error is ExpectedData && old(self).stage() == Some(Stage::Index)
                    ||| error matches BenchError::ExpectedRequest { stage } && Some(stage)
                        == next_stage(old(self).stage()->Some_0)
                    ||| error matches BenchError::ExpectedOneRange { stage, .. } && Some(stage)
                        == next_stage(old(self).stage()->Some_0)
                    ||| error matches BenchError::WrongLength { found } && found == bytes_length(
                        bytes,
                    ) && !fits(old(self).pending(), bytes) && *final(self) == *old(self)
                },
            },
    {
        let stage = match self.stage {
            Some(stage) => stage,
            None => {
                return Err(BenchError::ExpectedData);
            },
        };
        let found_len = bytes_len(&bytes);
        let fitting = match range_len(&self.pending) {
            Some(len) => len == found_len,
            None => false,
        };
        if !fitting {
            return Err(BenchError::WrongLength { found: found_len });
        }
        match decoder_push(&mut self.decoder, &self.pending, &bytes) {
            Ok(()) => {},
            Err(message) => {
                return Err(BenchError::Decoder { message });
            },
        }
        let event = match decoder_try_decode(&mut self.decoder) {
            Ok(event) => event,
            Err(cause) => {
                return Err(BenchError::Decoder { message: error_text(&cause) });
            },
        };
        let next = match stage {
            Stage::Footer => Some(Stage::Metadata),
            Stage::Metadata => Some(Stage::Index),
            Stage::Index => None,
        };
        let found = copy_range(&self.pending);
        match next {
            Some(following) => {
                let range = match requested_range(following, event) {
                    Ok(range) => range,
                    Err(error) => {
                        return Err(error);
                    },
                };
                self.pending = range;
            },
            None => {
                match expect_data(&event) {
                    Ok(()) => {},
                    Err(error) => {
                        return Err(error);
                    },
                }
            },
        }
        self.ranges.push(found);
        self.buffers.push(bytes);
        self.stage = next;
        Ok(next.is_some())
    }
}

/// The benchmark of one file: the three parts of the file that are parsed,
/// held in memory, so that only the parsing is timed.
pub struct MetadataParseBenchmark {
    description: String,
    /// number of times to parse the footer
    num_runs: usize,
    /// path to the parquet file
    file_path: PathBuf,
    file_len: u64,
    footer_range: Range<u64>,
    footer_bytes: Bytes,
    metadata_range: Range<u64>,
    metadata_bytes: Bytes,
    index_range: Range<u64>,
    index_bytes: Bytes,
}

impl MetadataParseBenchmark {
    /// The number of measured runs.
    pub closed spec fn runs(&self) -> usize {
        self.num_runs
    }

    /// The length of the file.
    pub closed spec fn len(&self) -> u64 {
        self.file_len
    }

    /// The ranges of the footer, the metadata and the page indexes.
    pub closed spec fn ranges(&self) -> Seq<Range<u64>> {
        seq![self.footer_range, self.metadata_range, self.index_range]
    }

    /// The bytes of the footer, the metadata and the page indexes.
    pub closed spec fn buffers(&self) -> Seq<Bytes> {
        seq![self.footer_bytes, self.metadata_bytes, self.index_bytes]
    }

    /// The description under which the results are reported.
    pub closed spec fn label(&self) -> Seq<char> {
        self.description@
    }

    /// The path of the file.
    pub closed spec fn path(&self) -> PathBuf {
        self.file_path
    }

    /// How one run with the decoder of arrow-rs 56 goes on the file: the
    /// breach it ends in, or `None` where it goes through.
    pub open spec fn breach_56(&self) -> Option<Breach> {
        exchange_56(self.len(), self.ranges(), self.buffers())
    }

    /// What one run with the decoder of arrow-rs 56 may return: a pair of
    /// times where the exchange goes through, and else the failure that
    /// stands for its breach.
    pub open spec fn once_56(&self, result: Result<(Duration, Duration), BenchError>) -> bool {
        match result {
            Ok(_) => self.breach_56() is None,
            Err(error) => breach_of(error) is Some && breach_of(error) == self.breach_56(),
        }
    }

    /// `view` is the timing of `num_runs` runs with the decoder of arrow-rs
    /// 56: the totals of as many pairs of times, each of which one run may
    /// return.
    pub open spec fn timed_56(&self, num_runs: usize, view: TimingView) -> bool {
        exists|samples: Seq<(Duration, Duration)>|
            samples.len() == num_runs && #[trigger] totals(num_runs, samples) == Some(view)
                && forall|i: int|
                0 <= i < samples.len() ==> self.once_56(
                    Ok::<(Duration, Duration), BenchError>(#[trigger] samples[i]),
                )
    }

    /// Each of the three buffers holds as many bytes as its range is long.
    pub closed spec fn wf(&self) -> bool {
        &&& fits(self.footer_range, self.footer_bytes)
        &&& fits(self.metadata_range, self.metadata_bytes)
        &&& fits(self.index_range, self.index_bytes)
    }

    /// The benchmark of the file whose three parts `probe` has found, with
    /// `NUM_RUNS` measured runs.
    pub fn new(description: String, file_path: PathBuf, probe: LayoutProbe) -> (benchmark:
        MetadataParseBenchmark)
        requires
            probe.wf(),
            probe.stage() is None,
        ensures
            benchmark.wf(),
            benchmark.label() == description@,
            benchmark.path() == file_path,
            benchmark.runs() == NUM_RUNS,
            benchmark.len() == probe.file_len(),
            benchmark.ranges() == probe.ranges(),
            benchmark.buffers() == probe.buffers(),
    {
        let ghost ranges = probe.ranges@;
        let ghost buffers = probe.buffers@;
        let LayoutProbe { file_len, ranges: found_ranges, buffers: found_buffers, .. } = probe;
        let mut found_ranges = found_ranges;
        let mut found_buffers = found_buffers;
        let index_range = found_ranges.pop().unwrap();
        let metadata_range = found_ranges.pop().unwrap();
        let footer_range = found_ranges.pop().unwrap();
        let index_bytes = found_buffers.pop().unwrap();
        let metadata_bytes = found_buffers.pop().unwrap();
        let footer_bytes = found_buffers.pop().unwrap();
        assert(ranges =~= seq![footer_range, metadata_range, index_range]);
        assert(buffers =~= seq![footer_bytes, metadata_bytes, index_bytes]);
        assert(fits(ranges[0], buffers[0]) && fits(ranges[1], buffers[1]) && fits(
            ranges[2],
            buffers[2],
        ));
        MetadataParseBenchmark {
            description,
            num_runs: NUM_RUNS,
            file_path,
            file_len,
            footer_range,
            footer_bytes,
            metadata_range,
            metadata_bytes,
            index_range,
            index_bytes,
        }
    }

    /// The description under which the results are reported.
    pub fn description(&self) -> (description: &String)
        ensures
            description@ == self.label(),
    {
        &self.description
    }

    /// The number of measured runs.
    pub fn num_runs(&self) -> (num_runs: usize)
        ensures
            num_runs == self.runs(),
    {
        self.num_runs
    }

    /// The path of the file.
    pub fn file_path(&self) -> (path: &PathBuf)
        ensures
            *path == self.path(),
    {
        &self.file_path
    }

    /// The length of the file.
    pub fn file_len(&self) -> (file_len: u64)
        ensures
            file_len == self.len(),
    {
        self.file_len
    }

    /// The range and the bytes of one part of the file.
    pub fn part(&self, stage: Stage) -> (part: (&Range<u64>, &Bytes))
        ensures
            self.wf() ==> fits(*part.0, *part.1),
            *part.0 == self.ranges()[parts_before(Some(stage)) as int],
            *part.1 == self.buffers()[parts_before(Some(stage)) as int],
    {
        match stage {
            Stage::Footer => (&self.footer_range, &self.footer_bytes),
            Stage::Metadata => (&self.metadata_range, &self.metadata_bytes),
            Stage::Index => (&self.index_range, &self.index_bytes),
        }
    }

    /// The numbers that describe the benchmark: the length of the file and
    /// the lengths of the footer, the metadata and the page indexes.
    pub fn sizes(&self) -> (sizes: (u64, usize, usize, usize))
        ensures
            sizes.0 == self.len(),
            sizes.1 == bytes_length(self.buffers()[0]),
            sizes.2 == bytes_length(self.buffers()[1]),
            sizes.3 == bytes_length(self.buffers()[2]),
    {
        (
            self.file_len,
            bytes_len(&self.footer_bytes),
            bytes_len(&self.metadata_bytes),
            bytes_len(&self.index_bytes),
        )
    }

    /// Parses the metadata and the page indexes once with the decoder of
    /// arrow-rs 56, and returns the time that each took.
    ///
    /// The decoder is given the footer and the metadata, and the time it
    /// takes to ask for the page indexes is the time of parsing the
    /// metadata. It is then given the page indexes, and the time it takes to
    /// hand out the metadata is the time of parsing the page indexes.
    ///
    /// It succeeds exactly when the exchange goes through, and fails with
    /// the failure that stands for the breach where it does not.
    pub fn run_once_arrow_56(&self) -> (result: Result<(Duration, Duration), BenchError>)
        requires
            self.wf(),
        ensures
            self.once_56(result),
            result matches Err(error) ==> decoder_failure(error),
    {
        let mut decoder = match decoder_new(self.file_len) {
            Ok(decoder) => decoder,
            Err(cause) => {
                return Err(BenchError::Decoder { message: error_text(&cause) });
            },
        };
        match decoder_push(&mut decoder, &self.footer_range, &self.footer_bytes) {
            Ok(()) => {},
            Err(message) => {
                return Err(BenchError::Decoder { message });
            },
        }
        match decoder_push(&mut decoder, &self.metadata_range, &self.metadata_bytes) {
            Ok(()) => {},
            Err(message) => {
                return Err(BenchError::Decoder { message });
            },
        }
        let start = clock_now();
        let answer = decoder_try_decode(&mut decoder);
        let metadata_parsing_duration = clock_elapsed(&start);
        let event = match answer {
            Ok(event) => event,
            Err(cause) => {
                return Err(BenchError::Decoder { message: error_text(&cause) });
            },
        };
        match index_needed(Decoder::Arrow56, &event) {
            Ok(_) => {},
            Err(error) => {
                return Err(error);
            },
        }
        let start = clock_now();
        match decoder_push(&mut decoder, &self.index_range, &self.index_bytes) {
            Ok(()) => {},
            Err(message) => {
                return Err(BenchError::Decoder { message });
            },
        }
        let answer = decoder_try_decode(&mut decoder);
        let event = match answer {
            Ok(event) => event,
            Err(cause) => {
                return Err(BenchError::Decoder { message: error_text(&cause) });
            },
        };
        match expect_data(&event) {
            Ok(()) => {},
            Err(error) => {
                return Err(error);
            },
        }
        let index_parsing_duration = clock_elapsed(&start);
        Ok((metadata_parsing_duration, index_parsing_duration))
    }

    /// Times the decoder of arrow-rs 56: `WARM_UP_RUNS` runs that do not
    /// count, then the measured runs, each with a new decoder.
    ///
    /// Where the exchange with the decoder does not go through, the first
    /// run fails and its failure is returned. Where it does, the timing
    /// holds the totals of the measured runs, unless they do not fit, which
    /// is `TimeOverflow`.
    pub fn run_arrow_56(&self) -> (result: Result<Timing, BenchError>)
        requires
            self.wf(),
        ensures
            self.breach_56() is Some ==> (result matches Err(error) && breach_of(error)
                == self.breach_56()),
            self.breach_56() is None ==> result is Ok || result matches Err(
                BenchError::TimeOverflow,
            ),
            match result {
                Ok(timing) => self.timed_56(self.runs(), timing@) && timing@.num_runs
                    == self.runs(),
                Err(error) => decoder_failure(error) || error is TimeOverflow,
            },
    {
        let run_once = || -> (result: Result<(Duration, Duration), BenchError>)
            ensures
                self.once_56(result),
                result matches Err(error) ==> decoder_failure(error),
            { self.run_once_arrow_56() };
        let result = measure(self.num_runs, run_once);
        proof {
            if result is Ok {
                let view = result->Ok_0@;
                let samples = choose|samples: Seq<(Duration, Duration)>|
                    #[trigger] all_measured(run_once, samples) && samples.len() == self.num_runs
                        && totals(self.num_runs, samples) == Some(view);
                assert(totals(self.num_runs, samples) == Some(view));
                assert forall|i: int| 0 <= i < samples.len() implies self.once_56(
                    Ok::<(Duration, Duration), BenchError>(#[trigger] samples[i]),
                ) by {
                    assert(call_ensures(
                        run_once,
                        (),
                        Ok::<(Duration, Duration), BenchError>(samples[i]),
                    ));
                }
                let warm = choose|sample: (Duration, Duration)|
                    call_ensures(run_once, (), Ok::<(Duration, Duration), BenchError>(sample));
                assert(self.once_56(Ok::<(Duration, Duration), BenchError>(warm)));
            }
        }
        result
    }

    /// Times the three decoders on the file, one after the other, and
    /// returns the three timings under the benchmark's description: each
    /// holds the totals of the measured runs of its decoder. The first
    /// failure of a measurement ends the benchmark and is returned.
    ///
    /// The decoder of arrow-rs 56 is run by `run_once_arrow_56`. The other
    /// two are run by the caller: each of the two functions parses the
    /// metadata and the page indexes once and returns the time of each.
    pub fn run<A, B>(&self, run_once_arrow_57: A, run_once_arrow_57_no_stats: B) -> (result: Result<
        MetadataParseResult,
        BenchError,
    >) where
        A: Fn() -> Result<(Duration, Duration), BenchError>,
        B: Fn() -> Result<(Duration, Duration), BenchError>,

        requires
            self.wf(),
            call_requires(run_once_arrow_57, ()),
            call_requires(run_once_arrow_57_no_stats, ()),
        ensures
            self.breach_56() is Some ==> (result matches Err(error) && breach_of(error)
                == self.breach_56()),
            match result {
                Ok(outcome) => {
                    &&& outcome@.description == self.label()
                    &&& outcome@.arrow_56.num_runs == self.runs()
                    &&& outcome@.arrow_57.num_runs == self.runs()
                    &&& outcome@.arrow_57_no_stats.num_runs == self.runs()
                    &&& self.timed_56(self.runs(), outcome@.arrow_56)
                    &&& measured_by(run_once_arrow_57, self.runs(), outcome@.arrow_57)
                    &&& measured_by(
                        run_once_arrow_57_no_stats,
                        self.runs(),
                        outcome@.arrow_57_no_stats,
                    )
                },
                Err(error) => {
                    ||| breach_of(error) is Some && breach_of(error) == self.breach_56()
                    ||| self.breach_56() is None && {
                        ||| error is TimeOverflow
                        ||| measure_failure(run_once_arrow_57, self.runs(), error)
                        ||| measure_failure(run_once_arrow_57_no_stats, self.runs(), error)
                    }
                },
            },
    {
        let arrow_56_timing = match self.run_arrow_56() {
            Ok(timing) => timing,
            Err(error) => {
                return Err(error);
            },
        };
        let arrow_57_timing = match measure(self.num_runs, run_once_arrow_57) {
            Ok(timing) => timing,
            Err(error) => {
                return Err(error);
            },
        };
        let arrow_57_timing_no_stats = match measure(self.num_runs, run_once_arrow_57_no_stats) {
            Ok(timing) => timing,
            Err(error) => {
                return Err(error);
            },
        };
        Ok(
            MetadataParseResult::new(
                self.description.clone(),
                arrow_56_timing,
                arrow_57_timing,
                arrow_57_timing_no_stats,
            ),
        )
    }
}

/// How the exchange of one run with a decoder can go wrong.
pub enum Breach {
    /// The decoder refuses the length of the file or what it is given, or
    /// reports an error when it is asked to decode.
    Decoder,
    /// The decoder does not ask for the page indexes once it has the footer
    /// and the metadata.
    IndexNotRequested,
    /// The decoder does not hand out the metadata once it has the page
    /// indexes.
    NoMetadata,
}

/// The breach that a failure stands for, if it stands for one.
pub open spec fn breach_of(error: BenchError) -> Option<Breach> {
    match error {
        BenchError::Decoder { .. } => Some(Breach::Decoder),
        BenchError::ExpectedRequest { stage } => if stage == Stage::Index {
            Some(Breach::IndexNotRequested)
        } else {
            None
        },
        BenchError::ExpectedData => Some(Breach::NoMetadata),
        _ => None,
    }
}

/// How one run goes with the decoder of arrow-rs 56 on a file of `len`
/// bytes whose footer, metadata and page indexes lie in `ranges` and are
/// held in `buffers`: the breach it ends in, or `None` where it goes
/// through.
///
/// A new decoder is made for the length and given the footer and the
/// metadata. Asked to decode, it has to ask for more. It is then given the
/// page indexes and, asked again, has to hand out the metadata.
pub open spec fn exchange_56(len: u64, ranges: Seq<Range<u64>>, buffers: Seq<Bytes>) -> Option<
    Breach,
> {
    let fresh = decoder_for(len);
    let with_footer = decoder_fed(fresh, ranges[0], buffers[0]);
    let with_metadata = decoder_fed(with_footer, ranges[1], buffers[1]);
    let asked = decoder_decoded(with_metadata);
    let with_index = decoder_fed(asked, ranges[2], buffers[2]);
    if len < 8 || decoder_done(fresh) || decoder_done(with_footer) {
        Some(Breach::Decoder)
    } else {
        match decoder_answer(with_metadata) {
            Answer::Failed => Some(Breach::Decoder),
            Answer::Data => Some(Breach::IndexNotRequested),
            Answer::Finished => Some(Breach::IndexNotRequested),
            Answer::NeedsData(_) => if decoder_done(asked) {
                Some(Breach::Decoder)
            } else {
                match decoder_answer(with_index) {
                    Answer::Failed => Some(Breach::Decoder),
                    Answer::Data => None,
                    _ => Some(Breach::NoMetadata),
                }
            },
        }
    }
}

/// A failure that one run of the decoder of arrow-rs 56 may end in: the
/// decoder reports an error, does not ask for the page indexes once it has
/// the footer and the metadata, or does not hand out the metadata once it
/// has the page indexes.
pub open spec fn decoder_failure(error: BenchError) -> bool {
    ||| error is Decoder
    ||| error is ExpectedData
    ||| error matches BenchError::ExpectedRequest { stage } && stage == Stage::Index
}

/// The totals of `num_runs` runs are a timing of `num_runs` runs.
pub proof fn lemma_totals_runs(num_runs: usize, samples: Seq<(Duration, Duration)>)
    ensures
        totals(num_runs, samples) matches Some(view) ==> view.num_runs == num_runs,
    decreases samples.len(),
{
    if samples.len() > 0 {
        lemma_totals_runs(num_runs, samples.drop_last());
    }
}

/// The timing of `num_runs` runs that took the times of `samples`, added up
/// one after the other, or `None` where a total does not fit a `Duration`.
pub open spec fn totals(num_runs: usize, samples: Seq<(Duration, Duration)>) -> Option<TimingView>
    decreases samples.len(),
{
    if samples.len() == 0 {
        Some(TimingView { num_runs, metadata_nanos: 0, index_nanos: 0 })
    } else {
        match totals(num_runs, samples.drop_last()) {
            Some(view) => view.with_run(
                duration_nanos(samples.last().0),
                duration_nanos(samples.last().1),
            ),
            None => None,
        }
    }
}

/// Each of the samples is a pair of times that `run_once` may return.
pub open spec fn all_measured<F: Fn() -> Result<(Duration, Duration), BenchError>>(
    run_once: F,
    samples: Seq<(Duration, Duration)>,
) -> bool {
    forall|i: int|
        0 <= i < samples.len() ==> call_ensures(
            run_once,
            (),
            Ok::<(Duration, Duration), BenchError>(#[trigger] samples[i]),
        )
}

/// `view` is the timing of `num_runs` runs of `run_once`: the totals of as
/// many pairs of times that `run_once` may return.
pub open spec fn measured_by<F: Fn() -> Result<(Duration, Duration), BenchError>>(
    run_once: F,
    num_runs: usize,
    view: TimingView,
) -> bool {
    exists|samples: Seq<(Duration, Duration)>|
        #[trigger] all_measured(run_once, samples) && samples.len() == num_runs && totals(
            num_runs,
            samples,
        ) == Some(view)
}

/// Some runs of `run_once`, no more than `num_runs`, take times of which
/// all but the last can be added up and all cannot.
pub open spec fn overflows<F: Fn() -> Result<(Duration, Duration), BenchError>>(
    run_once: F,
    num_runs: usize,
) -> bool {
    exists|samples: Seq<(Duration, Duration)>|
        #[trigger] all_measured(run_once, samples) && 0 < samples.len() <= num_runs && totals(
            num_runs,
            samples.drop_last(),
        ) is Some && totals(num_runs, samples) is None
}

/// `run_once` may return a pair of times.
pub open spec fn may_succeed<F: Fn() -> Result<(Duration, Duration), BenchError>>(
    run_once: F,
) -> bool {
    exists|sample: (Duration, Duration)|
        call_ensures(run_once, (), Ok::<(Duration, Duration), BenchError>(sample))
}

/// `error` is a failure that a measurement of `run_once` may end in: one
/// that `run_once` itself may return, or `TimeOverflow` where the times of
/// its runs do not add up.
pub open spec fn measure_failure<F: Fn() -> Result<(Duration, Duration), BenchError>>(
    run_once: F,
    num_runs: usize,
    error: BenchError,
) -> bool {
    ||| call_ensures(run_once, (), Err::<(Duration, Duration), BenchError>(error))
    ||| error is TimeOverflow && overflows(run_once, num_runs)
}

/// Times a way of parsing: calls `run_once` for `WARM_UP_RUNS` runs that do
/// not count and then for `num_runs` runs whose times are added up.
///
/// The first failure of `run_once` ends the measurement and is returned;
/// `TimeOverflow` is returned where the times no longer fit. The timing
/// that comes back holds the totals of the `num_runs` measured runs.
pub fn measure<F: Fn() -> Result<(Duration, Duration), BenchError>>(
    num_runs: usize,
    run_once: F,
) -> (result: Result<Timing, BenchError>)
    requires
        call_requires(run_once, ()),
    ensures
        match result {
            Ok(timing) => measured_by(run_once, num_runs, timing@) && timing@.num_runs == num_runs
                && may_succeed(run_once),
            Err(error) => measure_failure(run_once, num_runs, error),
        },
{
    let mut warm_up: usize = 0;
    while warm_up < WARM_UP_RUNS
        invariant
            warm_up <= WARM_UP_RUNS,
            call_requires(run_once, ()),
            warm_up > 0 ==> may_succeed(run_once),
        decreases WARM_UP_RUNS - warm_up,
    {
        match run_once() {
            Ok(sample) => {
                assert(call_ensures(run_once, (), Ok::<(Duration, Duration), BenchError>(sample)));
            },
            Err(error) => {
                return Err(error);
            },
        }
        warm_up += 1;
    }
    assert(may_succeed(run_once));
    let mut timing = Timing::new(num_runs);
    let ghost samples = Seq::<(Duration, Duration)>::empty();
    let mut run: usize = 0;
    while run < num_runs
        invariant
            run <= num_runs,
            call_requires(run_once, ()),
            samples.len() == run,
            may_succeed(run_once),
            all_measured(run_once, samples),
            totals(num_runs, samples) == Some(timing@),
        decreases num_runs - run,
    {
        let (metadata, index) = match run_once() {
            Ok(times) => times,
            Err(error) => {
                return Err(error);
            },
        };
        let ghost longer = samples.push((metadata, index));
        proof {
            assert(longer.drop_last() == samples);
            assert(longer.last() == (metadata, index));
            assert forall|i: int| 0 <= i < longer.len() implies call_ensures(
                run_once,
                (),
                Ok::<(Duration, Duration), BenchError>(#[trigger] longer[i]),
            ) by {
                if i < samples.len() {
                    assert(longer[i] == samples[i]);
                }
            }
        }
        if !timing.record(metadata, index) {
            assert(all_measured(run_once, longer) && totals(num_runs, longer) is None);
            return Err(BenchError::TimeOverflow);
        }
        proof {
            samples = longer;
        }
        run += 1;
    }
    proof {
        lemma_totals_runs(num_runs, samples);
    }
    assert(all_measured(run_once, samples) && samples.len() == num_runs);
    Ok(timing)
}

/// The time that a number of parsing runs took in all.
#[derive(Debug)]
pub struct Timing {
    /// Total number of times the parsing was run
    num_runs: usize,
    /// Total duration for parsing the metadata (excluding index parsing)
    metadata_parsing_duration: Duration,
    /// Total duration for parsing the page indexes (page index and column index)
    index_parsing_duration: Duration,
}

/// What a `Timing` holds, in nanoseconds.
pub struct TimingView {
    pub num_runs: usize,
    pub metadata_nanos: nat,
    pub index_nanos: nat,
}

impl TimingView {
    /// The number by which the totals are divided: the number of runs as a
    /// `u32`.
    pub open spec fn divisor(self) -> u32 {
        self.num_runs as u32
    }

    /// The average time of parsing the metadata, in nanoseconds.
    pub open spec fn avg_metadata_nanos(self) -> nat {
        duration_quotient(self.metadata_nanos, self.divisor() as nat)
    }

    /// The average time of parsing the page indexes, in nanoseconds.
    pub open spec fn avg_index_nanos(self) -> nat {
        duration_quotient(self.index_nanos, self.divisor() as nat)
    }

    /// The timing once the times of one more run have been added, or `None`
    /// where a total would not fit a `Duration`.
    pub open spec fn with_run(self, metadata: nat, index: nat) -> Option<TimingView> {
        if duration_checked_sum(self.metadata_nanos, metadata) is Some && duration_checked_sum(
            self.index_nanos,
            index,
        ) is Some {
            Some(
                TimingView {
                    num_runs: self.num_runs,
                    metadata_nanos: self.metadata_nanos + metadata,
                    index_nanos: self.index_nanos + index,
                },
            )
        } else {
            None
        }
    }

    /// The three lines of the report on a timing.
    pub open spec fn text(self) -> Seq<char> {
        "num_runs: "@ + decimal_text(self.num_runs as nat) + "\n"@
            + "    Metadata parsing time "@ + duration_debug_text(self.avg_metadata_nanos()) + "\n"@
            + "    PageIndex (Column/Offset) "@ + duration_debug_text(self.avg_index_nanos())
            + "\n"@
    }
}

impl View for Timing {
    type V = TimingView;

    closed spec fn view(&self) -> TimingView {
        TimingView {
            num_runs: self.num_runs,
            metadata_nanos: duration_nanos(self.metadata_parsing_duration),
            index_nanos: duration_nanos(self.index_parsing_duration),
        }
    }
}

impl Timing {
    /// A timing of `num_runs` runs in which no time has been recorded yet.
    pub fn new(num_runs: usize) -> (timing: Timing)
        ensures
            timing@ == (TimingView { num_runs, metadata_nanos: 0, index_nanos: 0 }),
    {
        Timing {
            num_runs,
            metadata_parsing_duration: duration_zero(),
            index_parsing_duration: duration_zero(),
        }
    }

    /// A timing of `num_runs` runs that took the given times in all.
    pub fn from_totals(num_runs: usize, metadata: Duration, index: Duration) -> (timing: Timing)
        ensures
            timing@ == (TimingView {
                num_runs,
                metadata_nanos: duration_nanos(metadata),
                index_nanos: duration_nanos(index),
            }),
    {
        Timing { num_runs, metadata_parsing_duration: metadata, index_parsing_duration: index }
    }

    /// Adds the times of one run to the totals. Returns `false`, and leaves
    /// the totals as they are, where a total would overflow.
    pub fn record(&mut self, metadata: Duration, index: Duration) -> (recorded: bool)
        ensures
            match old(self)@.with_run(duration_nanos(metadata), duration_nanos(index)) {
                Some(view) => recorded && final(self)@ == view,
                None => !recorded && *final(self) == *old(self),
            },
    {
        let metadata_total = duration_checked_add(self.metadata_parsing_duration, metadata);
        let index_total = duration_checked_add(self.index_parsing_duration, index);
        match (metadata_total, index_total) {
            (Some(metadata_total), Some(index_total)) => {
                self.metadata_parsing_duration = metadata_total;
                self.index_parsing_duration = index_total;
                true
            },
            _ => false,
        }
    }

    /// The number of runs.
    pub fn num_runs(&self) -> (num_runs: usize)
        ensures
            num_runs == self@.num_runs,
    {
        self.num_runs
    }

    /// Whether the averages can be taken: the number of runs, as a `u32`, is
    /// not zero.
    pub fn has_runs(&self) -> (has: bool)
        ensures
            has == (self@.divisor() != 0),
    {
        self.num_runs as u32 != 0
    }

    /// The average time of parsing the metadata: the total divided by the
    /// number of runs, as `Duration` divides.
    pub fn avg_metadata_parsing_duration(&self) -> (average: Duration)
        requires
            self@.divisor() != 0,
        ensures
            duration_nanos(average) == self@.avg_metadata_nanos(),
    {
        duration_div(self.metadata_parsing_duration, self.num_runs as u32)
    }

    /// The average time of parsing the page indexes: the total divided by
    /// the number of runs, as `Duration` divides.
    pub fn avg_index_parsing_duration(&self) -> (average: Duration)
        requires
            self@.divisor() != 0,
        ensures
            duration_nanos(average) == self@.avg_index_nanos(),
    {
        duration_div(self.index_parsing_duration, self.num_runs as u32)
    }

    /// The report on the timing: the number of runs and the two averages,
    /// one to a line.
    pub fn to_text(&self) -> (text: String)
        requires
            self@.divisor() != 0,
        ensures
            text@ == self@.text(),
    {
        let mut text = "num_runs: ".to_owned();
        push_text(&mut text, decimal(self.num_runs as u128).as_str());
        push_text(&mut text, "\n");
        push_text(&mut text, "    Metadata parsing time ");
        push_text(&mut text, duration_debug(self.avg_metadata_parsing_duration()).as_str());
        push_text(&mut text, "\n");
        push_text(&mut text, "    PageIndex (Column/Offset) ");
        push_text(&mut text, duration_debug(self.avg_index_parsing_duration()).as_str());
        push_text(&mut text, "\n");
        text
    }
}

/// The timings of one file under the three decoders.
#[derive(Debug)]
pub struct MetadataParseResult {
    description: String,
    /// Timing for arrow-rs 56 (using thrift compiler)
    arrow_56_timing: Timing,
    /// Timing for arrow-rs 57 (using custom thrift parser)
    arrow_57_timing: Timing,
    /// Timing for arrow-rs 57 (using custom thrift parser), skip all statistics
    arrow_57_timing_no_stats: Timing,
}

/// What a `MetadataParseResult` holds.
pub struct ResultView {
    pub description: Seq<char>,
    pub arrow_56: TimingView,
    pub arrow_57: TimingView,
    pub arrow_57_no_stats: TimingView,
}

impl ResultView {
    /// Every timing has runs, so that its averages can be taken.
    pub open spec fn has_runs(self) -> bool {
        &&& self.arrow_56.divisor() != 0
        &&& self.arrow_57.divisor() != 0
        &&& self.arrow_57_no_stats.divisor() != 0
    }

    /// The six averages in nanoseconds: metadata and page index for each of
    /// the three decoders.
    pub open spec fn averages(self) -> Seq<nat> {
        seq![
            self.arrow_56.avg_metadata_nanos(),
            self.arrow_56.avg_index_nanos(),
            self.arrow_57.avg_metadata_nanos(),
            self.arrow_57.avg_index_nanos(),
            self.arrow_57_no_stats.avg_metadata_nanos(),
            self.arrow_57_no_stats.avg_index_nanos(),
        ]
    }

    /// The row of the result in the CSV output: the description, then the
    /// averages in decimal.
    pub open spec fn csv_row(self) -> Seq<Seq<char>> {
        seq![self.description] + Seq::new(6, |i: int| decimal_text(self.averages()[i]))
    }

    /// The row of the result in the table: the description, then the
    /// averages as `Duration`'s `Debug` impl writes them.
    pub open spec fn table_row(self) -> Seq<Seq<char>> {
        seq![self.description] + Seq::new(6, |i: int| duration_debug_text(self.averages()[i]))
    }

    /// The report on the result.
    pub open spec fn text(self) -> Seq<char> {
        "MetadataParseResult:\n"@ + "  description: "@ + self.description + "\n"@
            + "  Arrow 56 Timing:\n"@ + self.arrow_56.text() + "\n"@ + "  Arrow 57 Timing:\n"@
            + self.arrow_57.text() + "\n"@ + "  Arrow 57 Timing (no stats):\n"@
            + self.arrow_57_no_stats.text() + "\n"@
    }
}

impl View for MetadataParseResult {
    type V = ResultView;

    closed spec fn view(&self) -> ResultView {
        ResultView {
            description: self.description@,
            arrow_56: self.arrow_56_timing@,
            arrow_57: self.arrow_57_timing@,
            arrow_57_no_stats: self.arrow_57_timing_no_stats@,
        }
    }
}

/// The header of the table of results.
pub open spec fn table_header_cells() -> Seq<Seq<char>> {
    seq![
        "Description"@,
        "Parse Time Arrow 56\n\nMetadata"@,
        "Parse Time Arrow 56\n\nPageIndex (Column/Offset)"@,
        "Parse Time Arrow 57\n\nMetadata"@,
        "Parse Time Arrow 57\n\nPageIndex (Column/Offset)"@,
        "Parse Time Arrow 57 (no stats)\n\nMetadata"@,
        "Parse Time Arrow 57 (no stats)\n\nPageIndex (Column/Offset)"@,
    ]
}

/// The header of the CSV output.
pub open spec fn csv_header_cells() -> Seq<Seq<char>> {
    seq![
        "Description"@,
        "Parse Time Arrow 56 Metadata (ns)"@,
        "Parse Time Arrow 56 PageIndex (Column/Offset) (ns)"@,
        "Parse Time Arrow 57 Metadata (ns)"@,
        "Parse Time Arrow 57 PageIndex (Column/Offset) (ns)"@,
        "Parse Time Arrow 57 (no stats) Metadata (ns)"@,
        "Parse Time Arrow 57 (no stats) PageIndex (Column/Offset) (ns)"@,
    ]
}

impl MetadataParseResult {
    /// The result for a file with the given description.
    pub fn new(
        description: String,
        arrow_56_timing: Timing,
        arrow_57_timing: Timing,
        arrow_57_timing_no_stats: Timing,
    ) -> (result: MetadataParseResult)
        ensures
            result@ == (ResultView {
                description: description@,
                arrow_56: arrow_56_timing@,
                arrow_57: arrow_57_timing@,
                arrow_57_no_stats: arrow_57_timing_no_stats@,
            }),
    {
        MetadataParseResult {
            description,
            arrow_56_timing,
            arrow_57_timing,
            arrow_57_timing_no_stats,
        }
    }

    /// Whether every timing has runs, so that the result can be reported.
    pub fn has_runs(&self) -> (has: bool)
        ensures
            has == self@.has_runs(),
    {
        self.arrow_56_timing.has_runs() && self.arrow_57_timing.has_runs()
            && self.arrow_57_timing_no_stats.has_runs()
    }

    /// Gives the table its header: the description and, for each decoder,
    /// the two parse times.
    pub fn set_headers(table: &mut Table)
        ensures
            table_header(*final(table)) == Some(table_header_cells()),
            table_rows(*final(table)) == table_rows(*old(table)),
    {
        let cells = vec![
            "Description",
            "Parse Time Arrow 56\n\nMetadata",
            "Parse Time Arrow 56\n\nPageIndex (Column/Offset)",
            "Parse Time Arrow 57\n\nMetadata",
            "Parse Time Arrow 57\n\nPageIndex (Column/Offset)",
            "Parse Time Arrow 57 (no stats)\n\nMetadata",
            "Parse Time Arrow 57 (no stats)\n\nPageIndex (Column/Offset)",
        ];
        assert(labels(cells@) =~= table_header_cells());
        table_set_header(table, cells);
    }

    /// The header of the CSV output.
    pub fn csv_headers() -> (cells: Vec<&'static str>)
        ensures
            labels(cells@) == csv_header_cells(),
    {
        let cells = vec![
            "Description",
            "Parse Time Arrow 56 Metadata (ns)",
            "Parse Time Arrow 56 PageIndex (Column/Offset) (ns)",
            "Parse Time Arrow 57 Metadata (ns)",
            "Parse Time Arrow 57 PageIndex (Column/Offset) (ns)",
            "Parse Time Arrow 57 (no stats) Metadata (ns)",
            "Parse Time Arrow 57 (no stats) PageIndex (Column/Offset) (ns)",
        ];
        assert(labels(cells@) =~= csv_header_cells());
        cells
    }

    /// The row of the result in the CSV output: the description, then the
    /// six averages in whole nanoseconds.
    pub fn to_csv_row(&self) -> (cells: Vec<String>)
        requires
            self@.has_runs(),
        ensures
            texts(cells@) == self@.csv_row(),
    {
        let cells = vec![
            self.description.clone(),
            decimal(duration_as_nanos(self.arrow_56_timing.avg_metadata_parsing_duration())),
            decimal(duration_as_nanos(self.arrow_56_timing.avg_index_parsing_duration())),
            decimal(duration_as_nanos(self.arrow_57_timing.avg_metadata_parsing_duration())),
            decimal(duration_as_nanos(self.arrow_57_timing.avg_index_parsing_duration())),
            decimal(
                duration_as_nanos(self.arrow_57_timing_no_stats.avg_metadata_parsing_duration()),
            ),
            decimal(duration_as_nanos(self.arrow_57_timing_no_stats.avg_index_parsing_duration())),
        ];
        assert(texts(cells@) =~= self@.csv_row());
        cells
    }

    /// Adds the result to the table as one more row: the description, then
    /// the six averages.
    pub fn add_to_table(&self, table: &mut Table)
        requires
            self@.has_runs(),
        ensures
            table_rows(*final(table)) == table_rows(*old(table)).push(self@.table_row()),
            table_header(*final(table)) == table_header(*old(table)),
    {
        let cells = vec![
            self.description.clone(),
            duration_debug(self.arrow_56_timing.avg_metadata_parsing_duration()),
            duration_debug(self.arrow_56_timing.avg_index_parsing_duration()),
            duration_debug(self.arrow_57_timing.avg_metadata_parsing_duration()),
            duration_debug(self.arrow_57_timing.avg_index_parsing_duration()),
            duration_debug(self.arrow_57_timing_no_stats.avg_metadata_parsing_duration()),
            duration_debug(self.arrow_57_timing_no_stats.avg_index_parsing_duration()),
        ];
        assert(texts(cells@) =~= self@.table_row());
        table_add_row(table, cells);
    }

    /// The report on the result: the description and the three timings.
    pub fn to_text(&self) -> (text: String)
        requires
            self@.has_runs(),
        ensures
            text@ == self@.text(),
    {
        let mut text = "MetadataParseResult:\n".to_owned();
        push_text(&mut text, "  description: ");
        push_text(&mut text, self.description.as_str());
        push_text(&mut text, "\n");
        push_text(&mut text, "  Arrow 56 Timing:\n");
        push_text(&mut text, self.arrow_56_timing.to_text().as_str());
        push_text(&mut text, "\n");
        push_text(&mut text, "  Arrow 57 Timing:\n");
        push_text(&mut text, self.arrow_57_timing.to_text().as_str());
        push_text(&mut text, "\n");
        push_text(&mut text, "  Arrow 57 Timing (no stats):\n");
        push_text(&mut text, self.arrow_57_timing_no_stats.to_text().as_str());
        push_text(&mut text, "\n");
        text
    }
}

} // verus!

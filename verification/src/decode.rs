//! Driving a metadata push decoder.
//!
//! A push decoder does no reading of its own. Asked to decode, it either
//! names the byte ranges of the file that it still needs, or hands out the
//! decoded metadata, or says that it has finished. The benchmark expects a
//! fixed exchange: the decoder asks for the footer, then for the metadata,
//! then for the page indexes, one range each time, and then has the
//! metadata. The functions here decide, for each answer of the decoder,
//! whether the exchange is on track.

use std::ops::Range;
use vstd::prelude::*;

verus! {

/// What the decoder is expected to ask for next.
#[derive(Debug, Clone, Copy, PartialEq, Eq, Structural)]
pub enum Stage {
    /// The last bytes of the file, which say where the metadata lies.
    Footer,
    /// The metadata.
    Metadata,
    /// The page indexes: column indexes and offset indexes.
    Index,
}

/// Which decoder is being timed.
#[derive(Debug, Clone, Copy, PartialEq, Eq, Structural)]
pub enum Decoder {
    /// arrow-rs 56, whose metadata structs come from the thrift compiler.
    Arrow56,
    /// arrow-rs 57, with its own thrift decoder.
    Arrow57,
    /// arrow-rs 57 with its own thrift decoder, made to skip all statistics.
    Arrow57NoStats,
}

/// What a decoder answered when it was asked to decode.
#[derive(Debug)]
pub enum DecodeEvent {
    /// It needs the bytes of these ranges.
    NeedsData(Vec<Range<u64>>),
    /// It has decoded the metadata.
    Data,
    /// It had finished before.
    Finished,
}

/// What a decoder answers, as a value of specifications: the ranges it asks
/// for, that it has the metadata, that it had finished, or that it failed.
pub enum Answer {
    NeedsData(Seq<Range<u64>>),
    Data,
    Finished,
    Failed,
}

impl DecodeEvent {
    /// The answer that the event stands for.
    pub open spec fn answer(self) -> Answer {
        match self {
            DecodeEvent::NeedsData(ranges) => Answer::NeedsData(ranges@),
            DecodeEvent::Data => Answer::Data,
            DecodeEvent::Finished => Answer::Finished,
        }
    }
}

impl Answer {
    /// The one range that the answer asks for, if it asks for exactly one.
    pub open spec fn request(self) -> Option<Range<u64>> {
        match self {
            Answer::NeedsData(ranges) => if ranges.len() == 1 {
                Some(ranges[0])
            } else {
                None
            },
            _ => None,
        }
    }
}

/// A breach of the expected exchange, or a failure of the decoder.
#[derive(Debug)]
pub enum BenchError {
    /// The decoder reported an error of its own.
    Decoder { message: String },
    /// The decoder was expected to ask for bytes and did not.
    ExpectedRequest { stage: Stage },
    /// The decoder asked for a number of ranges other than one.
    ExpectedOneRange { stage: Stage, found: usize },
    /// The decoder was expected to hand out the metadata and did not.
    ExpectedData,
    /// The decoder finished without handing out the metadata.
    UnexpectedFinish,
    /// The bytes supplied for a range are not as many as the range is long,
    /// or the range ends before it starts.
    WrongLength { found: usize },
    /// The total of the measured times does not fit a `Duration`.
    TimeOverflow,
}

/// The number of bytes of a range: `None` where the range ends before it
/// starts or its length does not fit a `usize`.
pub fn range_len(range: &Range<u64>) -> (len: Option<usize>)
    ensures
        match len {
            Some(len) => range.start <= range.end && len == range.end - range.start,
            None => range.start > range.end || range.end - range.start > usize::MAX,
        },
{
    if range.start > range.end {
        return None;
    }
    let len = range.end - range.start;
    if len > usize::MAX as u64 {
        None
    } else {
        Some(len as usize)
    }
}

/// The one range that the decoder asks for at `stage`.
///
/// The answer has to be a request for exactly one range. Any other answer
/// is a breach: `ExpectedRequest` where the decoder did not ask for bytes,
/// `ExpectedOneRange` where it asked for no range or for several.
pub fn requested_range(stage: Stage, event: DecodeEvent) -> (result: Result<Range<u64>, BenchError>)
    ensures
        match result {
            Ok(range) => event matches DecodeEvent::NeedsData(ranges) && ranges@ == seq![range],
            Err(BenchError::ExpectedOneRange { stage: at, found }) => {
                &&& event matches DecodeEvent::NeedsData(ranges)
                &&& ranges@.len() == found
                &&& found != 1
                &&& at == stage
            },
            Err(BenchError::ExpectedRequest { stage: at }) => {
                &&& !(event is NeedsData)
                &&& at == stage
            },
            Err(_) => false,
        },
{
    match event {
        DecodeEvent::NeedsData(ranges) => {
            let mut ranges = ranges;
            if ranges.len() != 1 {
                return Err(BenchError::ExpectedOneRange { stage, found: ranges.len() });
            }
            let ghost all = ranges@;
            let range = ranges.pop().unwrap();
            assert(all =~= seq![range]);
            Ok(range)
        },
        _ => Err(BenchError::ExpectedRequest { stage }),
    }
}

/// Whether the page indexes are still to be parsed once the metadata has
/// been: the decoder's answer after it was given the footer and the
/// metadata.
///
/// A request for bytes means that they are. The decoder that skips the
/// statistics may have the metadata at once, and then there are none to
/// parse; from the other decoders that answer is a breach. A decoder that
/// says it had finished is a breach.
pub fn index_needed(decoder: Decoder, event: &DecodeEvent) -> (result: Result<bool, BenchError>)
    ensures
        match result {
            Ok(needed) => {
                &&& needed <==> event is NeedsData
                &&& !needed ==> event is Data && decoder == Decoder::Arrow57NoStats
            },
            Err(BenchError::ExpectedRequest { stage }) => {
                &&& stage == Stage::Index
                &&& decoder != Decoder::Arrow57NoStats
                &&& !(event is NeedsData)
            },
            Err(BenchError::UnexpectedFinish) => {
                &&& decoder == Decoder::Arrow57NoStats
                &&& event is Finished
            },
            Err(_) => false,
        },
{
    match event {
        DecodeEvent::NeedsData(_) => Ok(true),
        DecodeEvent::Data => match decoder {
            Decoder::Arrow57NoStats => Ok(false),
            _ => Err(BenchError::ExpectedRequest { stage: Stage::Index }),
        },
        DecodeEvent::Finished => match decoder {
            Decoder::Arrow57NoStats => Err(BenchError::UnexpectedFinish),
            _ => Err(BenchError::ExpectedRequest { stage: Stage::Index }),
        },
    }
}

/// Checks that the decoder has handed out the metadata, as it has to once it
/// has been given everything.
pub fn expect_data(event: &DecodeEvent) -> (result: Result<(), BenchError>)
    ensures
        match result {
            Ok(()) => event is Data,
            Err(error) => error is ExpectedData && !(event is Data),
        },
{
    match event {
        DecodeEvent::Data => Ok(()),
        _ => Err(BenchError::ExpectedData),
    }
}

} // verus!

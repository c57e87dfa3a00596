//! The metadata push decoder of `parquet`, and the buffers it is fed.
//!
//! Nothing in this module is proved. Each function hands its arguments to one
//! function of `parquet` or `bytes`. What the decoder answers depends on
//! everything it has been given before: it is named, not described.

use crate::decode::{Answer, DecodeEvent};
use bytes::Bytes;
use parquet::errors::ParquetError;
use parquet::file::metadata::ParquetMetaDataPushDecoder;
use parquet::DecodeResult;
use std::ops::Range;
use vstd::prelude::*;

verus! {

#[verifier::external_type_specification]
#[verifier::external_body]
pub struct ExBytes(Bytes);

#[verifier::external_type_specification]
#[verifier::external_body]
pub struct ExParquetMetaDataPushDecoder(ParquetMetaDataPushDecoder);

/// The number of bytes that a buffer holds: what `Bytes::len` returns.
pub uninterp spec fn bytes_length(bytes: Bytes) -> nat;

/// The decoder that `ParquetMetaDataPushDecoder::try_new` makes for a file
/// of the given length.
pub uninterp spec fn decoder_for(file_len: u64) -> ParquetMetaDataPushDecoder;

/// Whether the decoder has handed out the metadata, after which
/// `push_ranges` refuses what it is given.
pub uninterp spec fn decoder_done(decoder: ParquetMetaDataPushDecoder) -> bool;

/// The decoder once `push_ranges` has given it the bytes of a range.
pub uninterp spec fn decoder_fed(
    decoder: ParquetMetaDataPushDecoder,
    range: Range<u64>,
    bytes: Bytes,
) -> ParquetMetaDataPushDecoder;

/// What `try_decode` answers on the decoder.
pub uninterp spec fn decoder_answer(decoder: ParquetMetaDataPushDecoder) -> Answer;

/// The decoder as `try_decode` leaves it.
pub uninterp spec fn decoder_decoded(
    decoder: ParquetMetaDataPushDecoder,
) -> ParquetMetaDataPushDecoder;

/// The result of `try_decode` says what the answer says.
pub open spec fn answers(result: Result<DecodeEvent, ParquetError>, answer: Answer) -> bool {
    match result {
        Ok(event) => event.answer() == answer,
        Err(_) => answer is Failed,
    }
}

/// The buffer holds as many bytes as the range is long.
pub open spec fn fits(range: Range<u64>, bytes: Bytes) -> bool {
    range.start <= range.end && bytes_length(bytes) == range.end - range.start
}

/// `Bytes::len`.
#[verifier::external_body]
pub(crate) fn bytes_len(bytes: &Bytes) -> (len: usize)
    ensures
        len == bytes_length(*bytes),
{
    bytes.len()
}

/// `ParquetMetaDataPushDecoder::try_new`: a decoder for a file of the given
/// length. It refuses exactly the lengths below 8 bytes.
#[verifier::external_body]
pub(crate) fn decoder_new(file_len: u64) -> (result: Result<
    ParquetMetaDataPushDecoder,
    ParquetError,
>)
    ensures
        result is Ok <==> file_len >= 8,
        result matches Ok(decoder) ==> decoder == decoder_for(file_len),
{
    ParquetMetaDataPushDecoder::try_new(file_len)
}

/// `ParquetMetaDataPushDecoder::push_ranges` with one range and its bytes.
/// It panics where the buffer is not as long as the range, which the
/// precondition rules out. It refuses the bytes exactly when the decoder has
/// handed out the metadata, and then leaves the decoder as it is.
#[verifier::external_body]
pub(crate) fn decoder_push(
    decoder: &mut ParquetMetaDataPushDecoder,
    range: &Range<u64>,
    bytes: &Bytes,
) -> (result: Result<(), String>)
    requires
        fits(*range, *bytes),
    ensures
        result is Ok <==> !decoder_done(*old(decoder)),
        result is Ok ==> *final(decoder) == decoder_fed(*old(decoder), *range, *bytes),
        result is Err ==> *final(decoder) == *old(decoder),
{
    decoder.push_ranges(vec![range.clone()], vec![bytes.clone()])
}

/// `ParquetMetaDataPushDecoder::try_decode`. The decoded metadata is
/// dropped: only the kind of answer is kept, and for a request the ranges.
/// The answer, and the decoder it leaves, depend on the decoder alone.
#[verifier::external_body]
pub(crate) fn decoder_try_decode(decoder: &mut ParquetMetaDataPushDecoder) -> (result: Result<
    DecodeEvent,
    ParquetError,
>)
    ensures
        answers(result, decoder_answer(*old(decoder))),
        *final(decoder) == decoder_decoded(*old(decoder)),
{
    match decoder.try_decode() {
        Ok(DecodeResult::NeedsData(ranges)) => Ok(DecodeEvent::NeedsData(ranges)),
        Ok(DecodeResult::Data(_)) => Ok(DecodeEvent::Data),
        Ok(DecodeResult::Finished) => Ok(DecodeEvent::Finished),
        Err(error) => Err(error),
    }
}

} // verus!

//! The bounded channel of `tokio::sync::mpsc`, as far as a column's queue
//! uses it: made once, filled with `try_send`, emptied with `try_recv`.
//!
//! Nothing here is proved. Each contract says what tokio's source shows of a
//! channel whose two ends are held by one owner and used from one thread.

use crate::queue::SendOutcome;
use arrow::array::ArrayData;
use tokio::sync::mpsc::error::TrySendError;
use tokio::sync::mpsc::{Receiver, Sender};
use vstd::prelude::*;

verus! {

#[verifier::external_type_specification]
#[verifier::external_body]
#[verifier::reject_recursive_types(T)]
pub struct ExSender<T>(Sender<T>);

#[verifier::external_type_specification]
#[verifier::external_body]
#[verifier::reject_recursive_types(T)]
pub struct ExReceiver<T>(Receiver<T>);

/// The largest capacity that a channel is made with: tokio counts the free
/// places in a word of which it keeps three bits for itself.
pub const MAX_CHANNEL_CAPACITY: usize = 0x1fff_ffff;

/// The messages that wait in the channel of this receiving end, oldest first.
pub uninterp spec fn channel_queued(receiver: Receiver<ArrayData>) -> Seq<ArrayData>;

/// The number of messages that the channel of this receiving end was made for.
pub uninterp spec fn channel_capacity(receiver: Receiver<ArrayData>) -> nat;

/// The two are the ends that one call of `channel` made, the receiving end
/// has not been closed, and the sending end is the only one there is.
pub uninterp spec fn linked(sender: Sender<ArrayData>, receiver: Receiver<ArrayData>) -> bool;

/// `tokio::sync::mpsc::channel`: an empty channel with room for `capacity`
/// messages. It panics on a capacity of zero and on one beyond what its
/// semaphore counts, so both are left out.
#[verifier::external_body]
pub(crate) fn channel_new(capacity: usize) -> (ends: (Sender<ArrayData>, Receiver<ArrayData>))
    requires
        0 < capacity <= MAX_CHANNEL_CAPACITY,
    ensures
        linked(ends.0, ends.1),
        channel_queued(ends.1).len() == 0,
        channel_capacity(ends.1) == capacity,
{
    tokio::sync::mpsc::channel(capacity)
}

/// `Sender::try_send`: takes a free place if there is one and appends the
/// message; with no place free the message comes back as `Full`. It answers
/// `Closed`, here `Abandoned`, only once the receiving end is closed or
/// dropped, which `linked` excludes. The receiving end is handed in because
/// what it will hand out changes.
#[verifier::external_body]
pub(crate) fn channel_try_send(
    sender: &Sender<ArrayData>,
    receiver: &mut Receiver<ArrayData>,
    slice: ArrayData,
) -> (outcome: SendOutcome)
    requires
        linked(*sender, *old(receiver)),
        channel_queued(*old(receiver)).len() <= channel_capacity(*old(receiver)),
    ensures
        linked(*sender, *final(receiver)),
        channel_capacity(*final(receiver)) == channel_capacity(*old(receiver)),
        match outcome {
            SendOutcome::Sent => {
                &&& channel_queued(*old(receiver)).len() < channel_capacity(*old(receiver))
                &&& channel_queued(*final(receiver)) == channel_queued(*old(receiver)).push(slice)
            },
            SendOutcome::Full(back) => {
                &&& channel_queued(*old(receiver)).len() == channel_capacity(*old(receiver))
                &&& back == slice
                &&& channel_queued(*final(receiver)) == channel_queued(*old(receiver))
            },
            SendOutcome::Closed(_) | SendOutcome::Abandoned(_) => false,
        },
{
    match sender.try_send(slice) {
        Ok(()) => SendOutcome::Sent,
        Err(TrySendError::Full(back)) => SendOutcome::Full(back),
        Err(TrySendError::Closed(back)) => SendOutcome::Abandoned(back),
    }
}

/// `Receiver::try_recv`: hands out the oldest waiting message and frees its
/// place. It fails, with `Empty` or `Disconnected`, exactly when nothing
/// waits; the channel is then as it was.
#[verifier::external_body]
pub(crate) fn channel_try_recv(receiver: &mut Receiver<ArrayData>) -> (taken: Option<ArrayData>)
    ensures
        channel_capacity(*final(receiver)) == channel_capacity(*old(receiver)),
        forall|sender: Sender<ArrayData>|
            linked(sender, *final(receiver)) == linked(sender, *old(receiver)),
        taken is Some <==> channel_queued(*old(receiver)).len() > 0,
        taken matches Some(slice) ==> {
            &&& slice == channel_queued(*old(receiver))[0]
            &&& channel_queued(*final(receiver)) == channel_queued(*old(receiver)).skip(1)
        },
        taken is None ==> channel_queued(*final(receiver)) == channel_queued(*old(receiver)),
{
    receiver.try_recv().ok()
}

/// `Receiver::len`: the number of messages that wait.
#[verifier::external_body]
pub(crate) fn channel_len(receiver: &Receiver<ArrayData>) -> (len: usize)
    ensures
        len == channel_queued(*receiver).len(),
{
    receiver.len()
}

} // verus!

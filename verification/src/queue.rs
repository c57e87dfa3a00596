//! The bounded queue between the encoder and one column's worker.

use crate::channel::{
    channel_capacity, channel_len, channel_new, channel_queued, channel_try_recv,
    channel_try_send, linked, MAX_CHANNEL_CAPACITY,
};
use arrow::array::ArrayData;
use tokio::sync::mpsc::{Receiver, Sender};
use vstd::prelude::*;

verus! {

/// How many slices a column's queue holds before the submitter has to wait.
pub const QUEUE_CAPACITY: usize = 2;

/// What became of a slice that was offered to a queue.
pub enum SendOutcome {
    /// The queue took the slice.
    Sent,
    /// The queue is full. The slice comes back: the submitter waits until
    /// the worker has taken one out, and offers it again.
    Full(ArrayData),
    /// The submitter had closed the queue. The slice comes back.
    Closed(ArrayData),
    /// The worker is gone: nobody will take the slice. The slice comes back.
    Abandoned(ArrayData),
}

/// What a worker finds when it asks its queue for the next slice.
pub enum RecvOutcome {
    /// The oldest slice in the queue.
    Slice(ArrayData),
    /// Nothing is queued, and more may come.
    Empty,
    /// Nothing is queued and the submitter has closed the queue.
    Drained,
}

/// A first-in, first-out queue of column slices with a fixed capacity: the
/// two ends of one bounded channel.
///
/// The submitter's end is shut by `close`, which drops the sending end: the
/// worker still takes out what is queued. The worker's end is shut by
/// `abandon`, which drops the receiving end and with it what is queued.
pub struct ColumnQueue {
    sender: Option<Sender<ArrayData>>,
    receiver: Option<Receiver<ArrayData>>,
    capacity: usize,
}

impl View for ColumnQueue {
    type V = Seq<ArrayData>;

    /// The queued slices, oldest first.
    closed spec fn view(&self) -> Seq<ArrayData> {
        match self.receiver {
            Some(receiver) => channel_queued(receiver),
            None => Seq::empty(),
        }
    }
}

impl ColumnQueue {
    /// The most slices that the queue holds.
    pub closed spec fn capacity(&self) -> nat {
        self.capacity as nat
    }

    /// The submitter has closed the queue.
    pub closed spec fn is_closed(&self) -> bool {
        self.sender is None
    }

    /// The worker has gone away.
    pub closed spec fn is_abandoned(&self) -> bool {
        self.receiver is None
    }

    /// The queue never holds more than its capacity, and an abandoned queue
    /// holds nothing.
    pub closed spec fn wf(&self) -> bool {
        self.receiver matches Some(receiver) ==> {
            &&& channel_queued(receiver).len() <= self.capacity
            &&& channel_capacity(receiver) == self.capacity
            &&& self.sender matches Some(sender) ==> linked(sender, receiver)
        }
    }

    /// What `wf` says, in terms of the view.
    pub proof fn lemma_bounded(&self)
        requires
            self.wf(),
        ensures
            self@.len() <= self.capacity(),
            self.is_abandoned() ==> self@.len() == 0,
    {
    }

    /// An open, empty queue. A channel is made for at least one message and
    /// for no more than `MAX_CHANNEL_CAPACITY`.
    pub fn new(capacity: usize) -> (queue: ColumnQueue)
        requires
            0 < capacity <= MAX_CHANNEL_CAPACITY,
        ensures
            queue.wf(),
            queue@.len() == 0,
            queue.capacity() == capacity,
            !queue.is_closed(),
            !queue.is_abandoned(),
    {
        let (sender, receiver) = channel_new(capacity);
        ColumnQueue { sender: Some(sender), receiver: Some(receiver), capacity }
    }

    /// The number of queued slices.
    pub fn len(&self) -> (len: usize)
        ensures
            len == self@.len(),
    {
        match &self.receiver {
            Some(receiver) => channel_len(receiver),
            None => 0,
        }
    }

    /// Whether another slice fits.
    pub fn is_full(&self) -> (full: bool)
        requires
            self.wf(),
        ensures
            full == (self@.len() == self.capacity()),
    {
        self.len() >= self.capacity
    }

    /// Offers a slice. A full queue neither drops the slice nor grows: the
    /// slice is handed back and the queue stays as it was.
    pub fn try_send(&mut self, slice: ArrayData) -> (outcome: SendOutcome)
        requires
            old(self).wf(),
        ensures
            final(self).wf(),
            final(self).capacity() == old(self).capacity(),
            final(self).is_closed() == old(self).is_closed(),
            final(self).is_abandoned() == old(self).is_abandoned(),
            match outcome {
                SendOutcome::Sent => {
                    &&& !old(self).is_closed()
                    &&& !old(self).is_abandoned()
                    &&& old(self)@.len() < old(self).capacity()
                    &&& final(self)@ == old(self)@.push(slice)
                },
                SendOutcome::Full(back) => {
                    &&& !old(self).is_closed()
                    &&& !old(self).is_abandoned()
                    &&& old(self)@.len() == old(self).capacity()
                    &&& back == slice
                    &&& final(self)@ == old(self)@
                },
                SendOutcome::Closed(back) => {
                    &&& old(self).is_closed()
                    &&& !old(self).is_abandoned()
                    &&& back == slice
                    &&& final(self)@ == old(self)@
                },
                SendOutcome::Abandoned(back) => {
                    &&& old(self).is_abandoned()
                    &&& back == slice
                    &&& final(self)@ == old(self)@
                },
            },
    {
        match &mut self.receiver {
            None => SendOutcome::Abandoned(slice),
            Some(receiver) => match &self.sender {
                None => SendOutcome::Closed(slice),
                Some(sender) => channel_try_send(sender, receiver, slice),
            },
        }
    }

    /// Takes the oldest slice out, if there is one.
    pub fn recv(&mut self) -> (outcome: RecvOutcome)
        requires
            old(self).wf(),
        ensures
            final(self).wf(),
            final(self).capacity() == old(self).capacity(),
            final(self).is_closed() == old(self).is_closed(),
            final(self).is_abandoned() == old(self).is_abandoned(),
            match outcome {
                RecvOutcome::Slice(slice) => {
                    &&& old(self)@.len() > 0
                    &&& slice == old(self)@[0]
                    &&& final(self)@ == old(self)@.subrange(1, old(self)@.len() as int)
                },
                RecvOutcome::Empty => {
                    &&& old(self)@.len() == 0
                    &&& !old(self).is_closed()
                    &&& final(self)@ == old(self)@
                },
                RecvOutcome::Drained => {
                    &&& old(self)@.len() == 0
                    &&& old(self).is_closed()
                    &&& final(self)@ == old(self)@
                },
            },
    {
        let taken = match &mut self.receiver {
            Some(receiver) => channel_try_recv(receiver),
            None => None,
        };
        match taken {
            Some(slice) => RecvOutcome::Slice(slice),
            None => {
                if self.sender.is_none() {
                    RecvOutcome::Drained
                } else {
                    RecvOutcome::Empty
                }
            },
        }
    }

    /// Shuts the submitter's end. What is queued stays for the worker.
    pub fn close(&mut self)
        requires
            old(self).wf(),
        ensures
            final(self).wf(),
            final(self).is_closed(),
            final(self)@ == old(self)@,
            final(self).capacity() == old(self).capacity(),
            final(self).is_abandoned() == old(self).is_abandoned(),
    {
        self.sender = None;
    }

    /// Shuts the worker's end and discards what is queued.
    pub fn abandon(&mut self)
        requires
            old(self).wf(),
        ensures
            final(self).wf(),
            final(self).is_abandoned(),
            final(self)@.len() == 0,
            final(self).capacity() == old(self).capacity(),
            final(self).is_closed() == old(self).is_closed(),
    {
        self.receiver = None;
    }
}

} // verus!

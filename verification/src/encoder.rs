//! The row-group encoder: one bounded queue and one worker per column.
//!
//! A batch is split into its columns and each column's slice is put on that
//! column's queue. A worker takes the slices of its queue in the order in
//! which they were put there and encodes them. Workers are scheduled
//! cooperatively: a worker runs when the submitter finds its queue full and
//! has to wait, when `run_worker` is called for it, and when the encoder is
//! closed. Whatever the schedule, `close` returns one chunk per column, in
//! column order, each holding the column's slices in submission order.

use crate::batch::{BatchView, RowBatch};
use crate::column_type::{
    all_served, all_supported, field_is_supported, field_supported, props_can_serve, props_serve,
};
use crate::columnar::{
    array_clone, array_len, fresh_column_writers, made_for, props_batch_size, schema_field,
    schema_fields, schema_width, write_batch_size, writer_batch_size, writer_plain,
    written_leaves,
};
use crate::error::EncodeError;
use crate::order::{in_column_order, order_chunks};
use crate::queue::{ColumnQueue, RecvOutcome, QUEUE_CAPACITY};
use crate::worker::{
    after_slice, completes, decomposable, drains, slice_ok, slices_leaves, slices_rows,
    ColumnChunk, ColumnWorker,
};
use arrow::array::ArrayData;
use arrow::datatypes::{Field, Schema};
use parquet::arrow::arrow_writer::{ArrowColumnWriter, ArrowLeafColumn};
use parquet::file::properties::WriterProperties;
use std::sync::Arc;
use vstd::prelude::*;

verus! {

/// The slices of one column, one per batch, in the order of the batches.
pub open spec fn column_slices(batches: Seq<BatchView>, column: int) -> Seq<ArrayData> {
    Seq::new(batches.len(), |k: int| batches[k].columns[column])
}

/// The number of rows of a run of batches.
pub open spec fn total_rows(batches: Seq<BatchView>) -> nat
    decreases batches.len(),
{
    if batches.len() == 0 {
        0
    } else {
        total_rows(batches.drop_last()) + batches.last().rows
    }
}

/// Every batch is well formed and has `width` columns.
pub open spec fn well_shaped(batches: Seq<BatchView>, width: nat) -> bool {
    forall|k: int|
        0 <= k < batches.len() ==> (#[trigger] batches[k]).wf() && batches[k].columns.len()
            == width
}

/// What a queue holds once a slice has been submitted to it: the slice
/// stands behind the others, and where the queue was full the oldest has gone
/// to the worker.
pub open spec fn after_submit(queued: Seq<ArrayData>, slice: ArrayData) -> Seq<ArrayData> {
    if queued.len() >= QUEUE_CAPACITY {
        queued.subrange(1, queued.len() as int).push(slice)
    } else {
        queued.push(slice)
    }
}

/// The writer of a column once the submitter has waited for room in the
/// column's queue: where the queue was full the worker has encoded the
/// oldest slice.
pub open spec fn after_wait(
    writer: ArrowColumnWriter,
    field: Field,
    queued: Seq<ArrayData>,
) -> ArrowColumnWriter {
    if queued.len() >= QUEUE_CAPACITY {
        after_slice(writer, field, queued[0])
    } else {
        writer
    }
}

/// Each writer fits the field at its position.
pub open spec fn writers_fit(fields: Seq<Field>, writers: Seq<ArrowColumnWriter>) -> bool {
    forall|i: int|
        0 <= i < fields.len() && i < writers.len() ==> #[trigger] writer_fits(
            writers[i],
            fields[i],
        )
}

/// The writer was made for the column that the field describes, if the
/// encoder takes the field's data type, its write batch size is not zero,
/// and it encodes values plainly, without compression.
pub open spec fn writer_fits(writer: ArrowColumnWriter, field: Field) -> bool {
    &&& field_supported(field) ==> made_for(writer, field)
    &&& writer_batch_size(writer) != 0
    &&& writer_plain(writer)
}

/// Submitting a slice to a column whose worker can encode the oldest queued
/// slice, where it has to, does not change what becomes of the column: the
/// worker ends as it would have ended with the slice behind the others.
pub proof fn lemma_submit_prospect(
    writer: ArrowColumnWriter,
    field: Field,
    queued: Seq<ArrayData>,
    slice: ArrayData,
    more: Seq<ArrayData>,
)
    requires
        queued.len() >= QUEUE_CAPACITY ==> slice_ok(writer, field, queued[0]),
    ensures
        drains(after_wait(writer, field, queued), field, after_submit(queued, slice) + more)
            == drains(writer, field, queued + (seq![slice] + more)),
{
    let all = queued + (seq![slice] + more);
    if queued.len() >= QUEUE_CAPACITY {
        assert(all[0] == queued[0]);
        assert(all.skip(1) == queued.subrange(1, queued.len() as int).push(slice) + more);
    } else {
        assert(queued.push(slice) + more == all);
    }
}

/// A column whose worker cannot encode the oldest queued slice does not
/// complete, whatever follows.
pub proof fn lemma_blocked_prospect(
    writer: ArrowColumnWriter,
    field: Field,
    queued: Seq<ArrayData>,
    more: Seq<ArrayData>,
)
    requires
        queued.len() > 0,
        !slice_ok(writer, field, queued[0]),
    ensures
        drains(writer, field, queued + more) is None,
{
    assert((queued + more)[0] == queued[0]);
}

/// What each of a list of writers holds.
pub open spec fn writers_leaves(writers: Seq<ArrowColumnWriter>) -> Seq<Seq<ArrowLeafColumn>> {
    Seq::new(writers.len(), |i: int| written_leaves(writers[i]))
}

/// `chunk` has `rows` rows and holds, after `base`, the leaf columns of
/// `slices` under `field`, slice after slice.
pub open spec fn column_encoded(
    chunk: ColumnChunk,
    field: Field,
    base: Seq<ArrowLeafColumn>,
    slices: Seq<ArrayData>,
    rows: nat,
) -> bool {
    &&& chunk.rows() == rows
    &&& decomposable(field, slices)
    &&& chunk.leaves() == base + slices_leaves(field, slices)
}

/// `chunks` is what a row group of `batches` comes to, for columns with the
/// given fields whose writers held `bases` at the start: one chunk per
/// column, in column order, each with the rows of all batches, and the chunk
/// of column `i` holding, after `bases[i]`, the leaf columns of the column's
/// slice of each batch, in the order of the batches.
pub open spec fn encodes(
    chunks: Seq<ColumnChunk>,
    fields: Seq<Field>,
    bases: Seq<Seq<ArrowLeafColumn>>,
    batches: Seq<BatchView>,
) -> bool {
    &&& chunks.len() == fields.len()
    &&& in_column_order(chunks)
    &&& forall|i: int|
        0 <= i < chunks.len() ==> column_encoded(
            #[trigger] chunks[i],
            fields[i],
            bases[i],
            column_slices(batches, i),
            total_rows(batches),
        )
}

/// The chunks of a row group agree on the number of rows: every chunk has
/// the rows of all the batches, whichever column it belongs to.
pub proof fn lemma_chunks_agree(
    chunks: Seq<ColumnChunk>,
    fields: Seq<Field>,
    bases: Seq<Seq<ArrowLeafColumn>>,
    batches: Seq<BatchView>,
)
    requires
        encodes(chunks, fields, bases, batches),
    ensures
        forall|i: int| 0 <= i < chunks.len() ==> (#[trigger] chunks[i]).rows() == total_rows(batches),
        forall|i: int, j: int|
            0 <= i < chunks.len() && 0 <= j < chunks.len() ==> (#[trigger] chunks[i]).rows() == (
            #[trigger] chunks[j]).rows(),
        forall|i: int| 0 <= i < chunks.len() ==> (#[trigger] chunks[i]).index() == i,
{
    assert forall|i: int| 0 <= i < chunks.len() implies (#[trigger] chunks[i]).rows() == total_rows(
        batches,
    ) by {
        assert(column_encoded(
            chunks[i],
            fields[i],
            bases[i],
            column_slices(batches, i),
            total_rows(batches),
        ));
    }
}

/// The rows of a run of batches are the rows of its two halves.
pub proof fn lemma_total_rows_concat(front: Seq<BatchView>, back: Seq<BatchView>)
    ensures
        total_rows(front + back) == total_rows(front) + total_rows(back),
    decreases back.len(),
{
    if back.len() == 0 {
        assert(front + back == front);
    } else {
        lemma_total_rows_concat(front, back.drop_last());
        assert((front + back).drop_last() == front + back.drop_last());
        assert((front + back).last() == back.last());
    }
}

/// One more batch gives each column one more slice.
pub(crate) proof fn lemma_column_slices_push(batches: Seq<BatchView>, batch: BatchView, column: int)
    ensures
        column_slices(batches.push(batch), column) == column_slices(batches, column).push(
            batch.columns[column],
        ),
        total_rows(batches.push(batch)) == total_rows(batches) + batch.rows,
{
    assert(batches.push(batch).drop_last() == batches);
    assert(column_slices(batches.push(batch), column) =~= column_slices(batches, column).push(
        batch.columns[column],
    ));
}

/// The rows of a run of slices are the rows of its two halves.
proof fn lemma_slices_rows_concat(front: Seq<ArrayData>, back: Seq<ArrayData>)
    ensures
        slices_rows(front + back) == slices_rows(front) + slices_rows(back),
    decreases back.len(),
{
    if back.len() == 0 {
        assert(front + back == front);
    } else {
        lemma_slices_rows_concat(front, back.drop_last());
        assert((front + back).drop_last() == front + back.drop_last());
        assert((front + back).last() == back.last());
    }
}

/// Every column of a run of well-shaped batches has the rows of the run.
proof fn lemma_column_rows(batches: Seq<BatchView>, width: nat, column: int)
    requires
        well_shaped(batches, width),
        0 <= column < width,
    ensures
        slices_rows(column_slices(batches, column)) == total_rows(batches),
    decreases batches.len(),
{
    if batches.len() > 0 {
        let rest = batches.drop_last();
        let last = batches.last();
        assert forall|k: int| 0 <= k < rest.len() implies (#[trigger] rest[k]).wf()
            && rest[k].columns.len() == width by {
            assert(rest[k] == batches[k]);
        }
        lemma_column_rows(rest, width, column);
        assert(batches == rest.push(last));
        lemma_column_slices_push(rest, last, column);
        assert(column_slices(batches, column).drop_last() == column_slices(rest, column));
        assert(batches[batches.len() - 1].wf());
    } else {
        assert(column_slices(batches, column) =~= Seq::<ArrayData>::empty());
    }
}

/// The schema behind a shared handle.
spec fn fields_of(schema: &Arc<Schema>) -> Schema {
    **schema
}

/// The properties behind a shared handle.
spec fn props_of(props: &Arc<WriterProperties>) -> WriterProperties {
    **props
}

/// What a column's worker is doing.
enum LaneState {
    /// It takes slices.
    Running(ColumnWorker),
    /// It failed on a slice, for the reason given, and is gone.
    Crashed(EncodeError),
}

/// One column of the encoder: its queue and its worker.
struct Lane {
    queue: ColumnQueue,
    state: LaneState,
    field: Ghost<Field>,
    base: Ghost<Seq<ArrowLeafColumn>>,
    submitted: Ghost<Seq<ArrayData>>,
}

impl Lane {
    /// The slices that the worker has encoded.
    spec fn taken(&self) -> Seq<ArrayData> {
        match self.state {
            LaneState::Running(worker) => worker.taken(),
            LaneState::Crashed(_) => Seq::empty(),
        }
    }

    /// The column's writer, as long as the worker runs.
    spec fn writer(&self) -> ArrowColumnWriter {
        match self.state {
            LaneState::Running(worker) => worker.writer(),
            LaneState::Crashed(_) => arbitrary(),
        }
    }

    /// The lane of the column at `index` is consistent.
    spec fn wf(&self, index: int) -> bool {
        &&& self.queue.wf()
        &&& self.queue.capacity() == QUEUE_CAPACITY
        &&& !self.queue.is_closed()
        &&& 0 <= index <= usize::MAX
        &&& match self.state {
            LaneState::Running(worker) => {
                &&& worker.wf()
                &&& worker.index() == index
                &&& worker.field() == self.field@
                &&& worker.base() == self.base@
                &&& !self.queue.is_abandoned()
                &&& worker.taken() + self.queue@ == self.submitted@
            },
            LaneState::Crashed(error) => {
                &&& self.queue.is_abandoned()
                &&& error.spec_column() == Some(index as usize)
                &&& (error is Leaves || error is Write)
                &&& error is Leaves ==> !decomposable(self.field@, self.submitted@)
            },
        }
    }

    /// Lets the worker encode the oldest queued slice. Returns whether the
    /// worker is still running; where it is not, the queue is abandoned.
    fn advance(&mut self, Ghost(index): Ghost<int>) -> (alive: bool)
        requires
            old(self).wf(index),
            old(self).state is Running,
            old(self).queue@.len() > 0,
            slices_rows(old(self).submitted@) <= usize::MAX,
        ensures
            final(self).wf(index),
            final(self).field == old(self).field,
            final(self).base == old(self).base,
            final(self).submitted == old(self).submitted,
            alive <==> slice_ok(old(self).writer(), old(self).field@, old(self).queue@[0]),
            alive ==> {
                &&& final(self).state is Running
                &&& final(self).taken() == old(self).taken().push(old(self).queue@[0])
                &&& final(self).queue@ == old(self).queue@.subrange(
                    1,
                    old(self).queue@.len() as int,
                )
                &&& final(self).writer() == after_slice(
                    old(self).writer(),
                    old(self).field@,
                    old(self).queue@[0],
                )
            },
            !alive ==> final(self).state is Crashed && final(self).queue@.len() == 0,
    {
        let ghost taken = self.taken();
        let ghost queued = self.queue@;
        match self.queue.recv() {
            RecvOutcome::Slice(slice) => {
                proof {
                    let rest = queued.subrange(1, queued.len() as int);
                    assert(taken + queued == taken.push(slice) + rest);
                    assert((taken + queued)[taken.len() as int] == slice);
                    lemma_slices_rows_concat(taken.push(slice), rest);
                    crate::worker::lemma_slices_push(self.field@, taken, slice);
                }
                let result = match &mut self.state {
                    LaneState::Running(worker) => {
                        proof {
                            worker.lemma_wf();
                        }
                        worker.encode_slice(&slice)
                    },
                    LaneState::Crashed(_) => Ok(()),
                };
                match result {
                    Ok(()) => true,
                    Err(cause) => {
                        self.state = LaneState::Crashed(cause);
                        self.queue.abandon();
                        false
                    },
                }
            },
            _ => true,
        }
    }

    /// Puts a slice on the queue, which has room.
    fn submit(&mut self, slice: ArrayData, Ghost(index): Ghost<int>)
        requires
            old(self).wf(index),
            old(self).state is Running,
            old(self).queue@.len() < QUEUE_CAPACITY,
        ensures
            final(self).wf(index),
            final(self).state == old(self).state,
            final(self).field == old(self).field,
            final(self).base == old(self).base,
            final(self).queue@ == old(self).queue@.push(slice),
            final(self).submitted@ == old(self).submitted@.push(slice),
    {
        let outcome = self.queue.try_send(slice);
        assert(outcome is Sent);
        proof {
            assert(self.taken() + self.queue@ == (self.taken() + old(self).queue@).push(slice));
            self.submitted = Ghost(self.submitted@.push(slice));
        }
    }
}

/// Encodes the batches of one row group, column by column.
pub struct RowGroupEncoder {
    lanes: Vec<Lane>,
    rows: usize,
    offered: usize,
    failed: Option<usize>,
    accepted: Ghost<Seq<BatchView>>,
}

impl RowGroupEncoder {
    /// The number of columns.
    pub closed spec fn width(&self) -> nat {
        self.lanes@.len()
    }

    /// The field of each column.
    pub closed spec fn fields(&self) -> Seq<Field> {
        Seq::new(self.lanes@.len(), |i: int| self.lanes@[i].field@)
    }

    /// What each column's writer held when the encoder got it.
    pub closed spec fn bases(&self) -> Seq<Seq<ArrowLeafColumn>> {
        Seq::new(self.lanes@.len(), |i: int| self.lanes@[i].base@)
    }

    /// The batches that the encoder has accepted, oldest first.
    pub closed spec fn accepted(&self) -> Seq<BatchView> {
        self.accepted@
    }

    /// The number of rows of the accepted batches.
    pub closed spec fn rows(&self) -> nat {
        self.rows as nat
    }

    /// The number of rows of the batches that were offered with the right
    /// number of columns: the accepted ones, and those given up at a column
    /// whose worker had failed.
    pub closed spec fn offered(&self) -> nat {
        self.offered as nat
    }

    /// The first column whose worker has failed, if one has.
    pub closed spec fn failed(&self) -> Option<usize> {
        self.failed
    }

    /// The slices that wait in the queue of a column, oldest first.
    pub closed spec fn queued(&self, column: int) -> Seq<ArrayData> {
        self.lanes@[column].queue@
    }

    /// The slices that the worker of a column has encoded, oldest first.
    pub closed spec fn encoded(&self, column: int) -> Seq<ArrayData> {
        self.lanes@[column].taken()
    }

    /// The slices that were submitted to a column, oldest first.
    pub closed spec fn submitted(&self, column: int) -> Seq<ArrayData> {
        self.lanes@[column].submitted@
    }

    /// The writer of a column as it is now, as long as the column's worker
    /// runs.
    pub closed spec fn writer(&self, column: int) -> ArrowColumnWriter {
        self.lanes@[column].writer()
    }

    /// A slice cannot be submitted to the column: its worker has failed, or
    /// its queue is full and the worker fails on the oldest slice when the
    /// submitter waits for it.
    pub open spec fn blocks(&self, column: int) -> bool {
        ||| self.failed() == Some(column as usize)
        ||| self.queued(column).len() >= QUEUE_CAPACITY && !slice_ok(
            self.writer(column),
            self.fields()[column],
            self.queued(column)[0],
        )
    }

    /// The worker of the column encodes what waits in its queue and then
    /// `slices`, and its writer closes.
    pub open spec fn column_completes(&self, column: int, slices: Seq<ArrayData>) -> bool {
        completes(self.writer(column), self.fields()[column], self.queued(column) + slices)
    }

    /// No worker has failed, and every worker encodes what waits in its
    /// queue and then its slice of each of the batches `more`, and closes
    /// its writer.
    pub open spec fn completes_with(&self, more: Seq<BatchView>) -> bool {
        &&& self.failed() is None
        &&& forall|i: int|
            0 <= i < self.width() ==> #[trigger] self.column_completes(i, column_slices(more, i))
    }

    /// The encoder is consistent: every lane is, the row count is that of
    /// the accepted batches, and as long as no worker has failed every slice
    /// of every accepted batch is either encoded or queued, in order.
    pub closed spec fn wf(&self) -> bool {
        &&& forall|i: int| 0 <= i < self.lanes@.len() ==> (#[trigger] self.lanes@[i]).wf(i)
        &&& well_shaped(self.accepted@, self.lanes@.len())
        &&& self.rows == total_rows(self.accepted@)
        &&& self.rows <= self.offered
        &&& forall|i: int|
            0 <= i < self.lanes@.len() && (#[trigger] self.lanes@[i]).state is Running
                ==> slices_rows(self.lanes@[i].submitted@) <= self.offered
        &&& match self.failed {
            None => {
                &&& self.offered == self.rows
                &&& forall|i: int|
                    0 <= i < self.lanes@.len() ==> {
                        &&& (#[trigger] self.lanes@[i]).state is Running
                        &&& self.lanes@[i].submitted@ == column_slices(self.accepted@, i)
                    }
            },
            Some(column) => {
                &&& column < self.lanes@.len()
                &&& self.lanes@[column as int].state is Crashed
                &&& forall|i: int| 0 <= i < column ==> (#[trigger] self.lanes@[i]).state is Running
            },
        }
    }

    /// There is one field and one writer per column.
    pub proof fn lemma_columns(&self)
        ensures
            self.fields().len() == self.width(),
            self.bases().len() == self.width(),
    {
    }

    /// The row count is that of the accepted batches, each of which has one
    /// array per column. As long as no worker has failed every batch that
    /// was offered has been accepted.
    pub proof fn lemma_rows(&self)
        requires
            self.wf(),
        ensures
            self.rows() == total_rows(self.accepted()),
            self.rows() <= self.offered() <= usize::MAX,
            self.failed() is None ==> self.offered() == self.rows(),
            well_shaped(self.accepted(), self.width()),
    {
    }

    /// The first failed column is a column, and the workers of the columns
    /// before it run.
    pub proof fn lemma_failed(&self)
        requires
            self.wf(),
        ensures
            self.failed() matches Some(column) ==> column < self.width(),
    {
    }

    /// No queue ever holds more than `QUEUE_CAPACITY` slices: a submitter
    /// that finds a queue full waits for the worker instead of adding to it.
    pub proof fn lemma_queues_bounded(&self)
        requires
            self.wf(),
        ensures
            forall|i: int| 0 <= i < self.width() ==> (#[trigger] self.queued(i)).len() <= QUEUE_CAPACITY,
    {
        assert forall|i: int| 0 <= i < self.width() implies (#[trigger] self.queued(i)).len()
            <= QUEUE_CAPACITY by {
            assert(self.lanes@[i].wf(i));
            self.lanes@[i].queue.lemma_bounded();
        }
    }

    /// Nothing is dropped and nothing overtakes: as long as the worker of a
    /// column runs, what it has encoded, followed by what waits in the
    /// column's queue, is what was submitted to the column, in order. As
    /// long as no worker has failed that is the column's slice of every
    /// accepted batch, in the order in which the batches were accepted.
    pub proof fn lemma_nothing_dropped(&self)
        requires
            self.wf(),
        ensures
            forall|i: int|
                0 <= i < self.width() && (self.failed() matches Some(column) ==> i < column)
                    ==> (#[trigger] self.encoded(i)) + self.queued(i) == self.submitted(i),
            self.failed() is None ==> forall|i: int|
                0 <= i < self.width() ==> #[trigger] self.submitted(i) == column_slices(
                    self.accepted(),
                    i,
                ),
    {
        assert forall|i: int|
            0 <= i < self.width() && (self.failed() matches Some(column) ==> i < column) implies (
        #[trigger] self.encoded(i)) + self.queued(i) == self.submitted(i) by {
            assert(self.lanes@[i].wf(i));
            assert(self.lanes@[i].state is Running);
        }
        if self.failed() is None {
            assert forall|i: int| 0 <= i < self.width() implies #[trigger] self.submitted(i)
                == column_slices(self.accepted(), i) by {
                assert(self.lanes@[i].submitted@ == column_slices(self.accepted@, i));
            }
        }
    }

    /// An encoder for the columns of `schema`. The column at position `i` is
    /// encoded by `column_writers[i]`; each column gets an empty queue of
    /// `QUEUE_CAPACITY` slices and a worker that has encoded nothing.
    ///
    /// Besides the two lengths, which have to be equal, the writers have to
    /// fit the fields. That keeps the outside writer from panicking on a
    /// leaf column of another type and from running for ever with a write
    /// batch size of zero; `column_writers` gives writers that fit.
    pub fn new(schema: Arc<Schema>, column_writers: Vec<ArrowColumnWriter>) -> (encoder:
        RowGroupEncoder)
        requires
            schema_fields(*schema).len() == column_writers@.len(),
            writers_fit(schema_fields(*schema), column_writers@),
        ensures
            encoder.wf(),
            encoder.width() == column_writers@.len(),
            encoder.fields() == schema_fields(*schema),
            encoder.bases() == writers_leaves(column_writers@),
            encoder.accepted() == Seq::<BatchView>::empty(),
            encoder.rows() == 0,
            encoder.offered() == 0,
            encoder.failed() is None,
            forall|i: int|
                0 <= i < encoder.width() ==> (#[trigger] encoder.queued(i)).len() == 0
                    && encoder.encoded(i).len() == 0 && encoder.writer(i) == column_writers@[i],
    {
        let ghost writers = column_writers@;
        let mut rest = column_writers;
        let mut stack: Vec<ArrowColumnWriter> = Vec::new();
        while rest.len() > 0
            invariant
                rest@ == writers.subrange(0, rest@.len() as int),
                rest@.len() <= writers.len(),
                stack@.len() == writers.len() - rest@.len(),
                forall|k: int|
                    0 <= k < stack@.len() ==> #[trigger] stack@[k] == writers[writers.len() - 1
                        - k],
            decreases rest@.len(),
        {
            let writer = rest.pop().unwrap();
            stack.push(writer);
        }
        let mut lanes: Vec<Lane> = Vec::new();
        while stack.len() > 0
            invariant
                schema_fields(*schema).len() == writers.len(),
                writers_fit(schema_fields(*schema), writers),
                stack@.len() + lanes@.len() == writers.len(),
                forall|k: int|
                    0 <= k < stack@.len() ==> #[trigger] stack@[k] == writers[writers.len() - 1
                        - k],
                forall|i: int|
                    0 <= i < lanes@.len() ==> {
                        &&& (#[trigger] lanes@[i]).wf(i)
                        &&& lanes@[i].state is Running
                        &&& lanes@[i].taken().len() == 0
                        &&& lanes@[i].queue@.len() == 0
                        &&& lanes@[i].submitted@.len() == 0
                        &&& lanes@[i].writer() == writers[i]
                        &&& lanes@[i].field@ == schema_fields(*schema)[i]
                        &&& lanes@[i].base@ == written_leaves(writers[i])
                    },
            decreases stack@.len(),
        {
            let index = lanes.len();
            let writer = stack.pop().unwrap();
            assert(writer == writers[index as int]);
            let field = schema_field(&schema, index);
            let ghost shown = schema_fields(fields_of(&schema))[index as int];
            assert(writer_fits(writers[index as int], shown));
            let ghost base = written_leaves(writer);
            let worker = ColumnWorker::new(index, field, writer);
            let lane = Lane {
                queue: ColumnQueue::new(QUEUE_CAPACITY),
                state: LaneState::Running(worker),
                field: Ghost(shown),
                base: Ghost(base),
                submitted: Ghost(Seq::empty()),
            };
            assert(lane.taken() + lane.queue@ =~= lane.submitted@);
            assert(lane.wf(index as int));
            let ghost before = lanes@;
            lanes.push(lane);
            assert forall|i: int| 0 <= i < lanes@.len() implies {
                &&& (#[trigger] lanes@[i]).wf(i)
                &&& lanes@[i].state is Running
                &&& lanes@[i].taken().len() == 0
                &&& lanes@[i].queue@.len() == 0
                &&& lanes@[i].submitted@.len() == 0
                &&& lanes@[i].writer() == writers[i]
                &&& lanes@[i].field@ == schema_fields(*schema)[i]
                &&& lanes@[i].base@ == written_leaves(writers[i])
            } by {
                if i < before.len() {
                    assert(lanes@[i] == before[i]);
                }
            }
        }
        let encoder = RowGroupEncoder {
            lanes,
            rows: 0,
            offered: 0,
            failed: None,
            accepted: Ghost(Seq::empty()),
        };
        proof {
            assert(encoder.fields() =~= schema_fields(*schema));
            assert(encoder.bases() =~= writers_leaves(writers));
            assert forall|i: int| 0 <= i < encoder.lanes@.len() implies {
                &&& (#[trigger] encoder.lanes@[i]).state is Running
                &&& encoder.lanes@[i].submitted@ == column_slices(encoder.accepted@, i)
                &&& slices_rows(encoder.lanes@[i].submitted@) <= encoder.offered
            } by {
                assert(encoder.lanes@[i].wf(i));
                assert(encoder.lanes@[i].submitted@ =~= column_slices(encoder.accepted@, i));
            }
        }
        encoder
    }

    /// Like `new`, for a caller that has not compared the two lengths: where
    /// they differ no encoder is made. The writers have to fit the fields,
    /// as for `new`.
    pub fn try_new(schema: Arc<Schema>, column_writers: Vec<ArrowColumnWriter>) -> (result: Result<
        RowGroupEncoder,
        EncodeError,
    >)
        requires
            writers_fit(schema_fields(*schema), column_writers@),
        ensures
            match result {
                Ok(encoder) => {
                    &&& schema_fields(*schema).len() == column_writers@.len()
                    &&& encoder.wf()
                    &&& encoder.width() == column_writers@.len()
                    &&& encoder.fields() == schema_fields(*schema)
                    &&& encoder.bases() == writers_leaves(column_writers@)
                    &&& encoder.accepted() == Seq::<BatchView>::empty()
                    &&& encoder.rows() == 0
                    &&& encoder.offered() == 0
                    &&& encoder.failed() is None
                    &&& forall|i: int|
                        0 <= i < encoder.width() ==> (#[trigger] encoder.queued(i)).len() == 0
                            && encoder.encoded(i).len() == 0 && encoder.writer(i)
                            == column_writers@[i]
                },
                Err(error) => {
                    &&& error matches EncodeError::SchemaMismatch { columns, writers }
                    &&& columns == schema_fields(*schema).len()
                    &&& writers == column_writers@.len()
                    &&& columns != writers
                },
            },
    {
        let columns = schema_width(&schema);
        let writers = column_writers.len();
        if columns != writers {
            return Err(EncodeError::SchemaMismatch { columns, writers });
        }
        Ok(RowGroupEncoder::new(schema, column_writers))
    }

    /// The field of the column at `index`, if the schema has that many
    /// columns.
    pub fn field_at(schema: &Arc<Schema>, index: usize) -> (field: Option<Arc<Field>>)
        ensures
            match field {
                Some(field) => index < schema_fields(**schema).len() && *field == schema_fields(
                    **schema,
                )[index as int],
                None => index >= schema_fields(**schema).len(),
            },
    {
        if index < schema_width(schema) {
            Some(schema_field(schema, index))
        } else {
            None
        }
    }

    /// The encoder takes the column at `index` and can write it with the
    /// properties.
    pub open spec fn column_admitted(props: WriterProperties, fields: Seq<Field>, index: int) -> bool {
        field_supported(fields[index]) && props_serve(props, fields[index])
    }

    /// New column writers for the columns of `schema`, made with the given
    /// properties: one writer per column, made for that column and empty.
    ///
    /// The properties must not have a write batch size of zero, which is
    /// refused as `ZeroBatchSize`. Every column has to be of a data type
    /// that the encoder takes, and the properties must ask for nothing for
    /// it that the encoder cannot serve: the first column that fails either
    /// test is reported, as `UnsupportedColumn` or as `UnservedProperties`.
    /// There is no other failure.
    pub fn column_writers(schema: &Arc<Schema>, props: &Arc<WriterProperties>) -> (result: Result<
        Vec<ArrowColumnWriter>,
        EncodeError,
    >)
        ensures
            result is Ok <==> props_batch_size(**props) != 0 && all_supported(
                schema_fields(**schema),
            ) && all_served(**props, schema_fields(**schema)),
            match result {
                Ok(writers) => {
                    &&& writers@.len() == schema_fields(**schema).len()
                    &&& writers_fit(schema_fields(**schema), writers@)
                    &&& forall|i: int|
                        0 <= i < writers@.len() ==> (#[trigger] written_leaves(writers@[i])).len()
                            == 0
                },
                Err(EncodeError::ZeroBatchSize) => props_batch_size(**props) == 0,
                Err(EncodeError::UnsupportedColumn { column }) => {
                    &&& props_batch_size(**props) != 0
                    &&& column < schema_fields(**schema).len()
                    &&& !field_supported(schema_fields(**schema)[column as int])
                    &&& forall|j: int|
                        0 <= j < column ==> #[trigger] Self::column_admitted(
                            **props,
                            schema_fields(**schema),
                            j,
                        )
                },
                Err(EncodeError::UnservedProperties { column }) => {
                    &&& props_batch_size(**props) != 0
                    &&& column < schema_fields(**schema).len()
                    &&& field_supported(schema_fields(**schema)[column as int])
                    &&& !props_serve(**props, schema_fields(**schema)[column as int])
                    &&& forall|j: int|
                        0 <= j < column ==> #[trigger] Self::column_admitted(
                            **props,
                            schema_fields(**schema),
                            j,
                        )
                },
                Err(_) => false,
            },
    {
        let ghost fields = schema_fields(fields_of(schema));
        let ghost settings = props_of(props);
        if write_batch_size(props) == 0 {
            return Err(EncodeError::ZeroBatchSize);
        }
        let width = schema_width(schema);
        let mut i: usize = 0;
        while i < width
            invariant
                i <= width,
                fields == schema_fields(**schema),
                settings == **props,
                width == fields.len(),
                props_batch_size(**props) != 0,
                forall|j: int| 0 <= j < i ==> #[trigger] Self::column_admitted(settings, fields, j),
            decreases width - i,
        {
            let field = schema_field(schema, i);
            if !field_is_supported(&field) {
                assert(!field_supported(fields[i as int]));
                return Err(EncodeError::UnsupportedColumn { column: i });
            }
            if !props_can_serve(props, &field) {
                assert(!props_serve(settings, fields[i as int]));
                return Err(EncodeError::UnservedProperties { column: i });
            }
            assert(Self::column_admitted(settings, fields, i as int));
            i += 1;
        }
        proof {
            assert forall|j: int| 0 <= j < fields.len() implies #[trigger] field_supported(
                fields[j],
            ) by {
                assert(Self::column_admitted(settings, fields, j));
            }
            assert forall|j: int| 0 <= j < fields.len() implies #[trigger] props_serve(
                settings,
                fields[j],
            ) by {
                assert(Self::column_admitted(settings, fields, j));
            }
        }
        let writers = fresh_column_writers(schema, props).unwrap();
        assert forall|i: int| 0 <= i < fields.len() && i < writers@.len() implies #[trigger] writer_fits(
            writers@[i],
            fields[i],
        ) by {
            assert(made_for(writers@[i], fields[i]));
            assert(writer_batch_size(writers@[i]) == props_batch_size(props_of(props)));
            assert(writer_plain(writers@[i]));
        }
        Ok(writers)
    }

    /// An encoder for the columns of `schema` with column writers of its
    /// own, made for the schema with the given properties. Every writer is
    /// new, so that each chunk will hold the column's slices and nothing
    /// else.
    ///
    /// The failures are those of `column_writers`, and there is no other.
    pub fn for_schema(schema: Arc<Schema>, props: &Arc<WriterProperties>) -> (result: Result<
        RowGroupEncoder,
        EncodeError,
    >)
        ensures
            result is Ok <==> props_batch_size(**props) != 0 && all_supported(
                schema_fields(*schema),
            ) && all_served(**props, schema_fields(*schema)),
            match result {
                Ok(encoder) => {
                    &&& encoder.wf()
                    &&& encoder.width() == schema_fields(*schema).len()
                    &&& encoder.fields() == schema_fields(*schema)
                    &&& encoder.bases() == Seq::new(
                        encoder.width(),
                        |i: int| Seq::<ArrowLeafColumn>::empty(),
                    )
                    &&& encoder.accepted() == Seq::<BatchView>::empty()
                    &&& encoder.rows() == 0
                    &&& encoder.offered() == 0
                    &&& encoder.failed() is None
                    &&& forall|i: int|
                        0 <= i < encoder.width() ==> (#[trigger] encoder.queued(i)).len() == 0
                            && encoder.encoded(i).len() == 0
                },
                Err(EncodeError::ZeroBatchSize) => props_batch_size(**props) == 0,
                Err(EncodeError::UnsupportedColumn { column }) => {
                    &&& props_batch_size(**props) != 0
                    &&& column < schema_fields(*schema).len()
                    &&& !field_supported(schema_fields(*schema)[column as int])
                    &&& forall|j: int|
                        0 <= j < column ==> #[trigger] Self::column_admitted(
                            **props,
                            schema_fields(*schema),
                            j,
                        )
                },
                Err(EncodeError::UnservedProperties { column }) => {
                    &&& props_batch_size(**props) != 0
                    &&& column < schema_fields(*schema).len()
                    &&& field_supported(schema_fields(*schema)[column as int])
                    &&& !props_serve(**props, schema_fields(*schema)[column as int])
                    &&& forall|j: int|
                        0 <= j < column ==> #[trigger] Self::column_admitted(
                            **props,
                            schema_fields(*schema),
                            j,
                        )
                },
                Err(_) => false,
            },
    {
        let writers = match RowGroupEncoder::column_writers(&schema, props) {
            Ok(writers) => writers,
            Err(error) => {
                return Err(error);
            },
        };
        let ghost made = writers@;
        let encoder = RowGroupEncoder::new(schema, writers);
        proof {
            encoder.lemma_columns();
            assert(encoder.bases() =~= Seq::new(
                encoder.width(),
                |i: int| Seq::<ArrowLeafColumn>::empty(),
            )) by {
                assert forall|i: int| 0 <= i < encoder.width() implies encoder.bases()[i]
                    == Seq::<ArrowLeafColumn>::empty() by {
                    assert(written_leaves(made[i]).len() == 0);
                    assert(written_leaves(made[i]) =~= Seq::<ArrowLeafColumn>::empty());
                }
            }
        }
        Ok(encoder)
    }

    /// The column got the slice: it stands in the queue behind the others,
    /// and where the queue was full the worker has encoded the oldest slice
    /// first.
    pub open spec fn took(&self, after: &RowGroupEncoder, column: int, slice: ArrayData) -> bool {
        &&& after.queued(column) == after_submit(self.queued(column), slice)
        &&& after.writer(column) == after_wait(
            self.writer(column),
            self.fields()[column],
            self.queued(column),
        )
        &&& after.submitted(column) == self.submitted(column).push(slice)
    }

    /// Nothing has happened to the column.
    pub open spec fn kept(&self, after: &RowGroupEncoder, column: int) -> bool {
        &&& after.queued(column) == self.queued(column)
        &&& after.encoded(column) == self.encoded(column)
        &&& after.submitted(column) == self.submitted(column)
        &&& after.writer(column) == self.writer(column)
    }

    /// Encodes the next batch: puts each column's array on that column's
    /// queue, in column order.
    ///
    /// A batch that does not have one array per column is rejected before
    /// anything is submitted. Where a queue is full the submitter waits: the
    /// column's worker encodes the oldest queued slice, and the array is
    /// queued behind the rest. The fan-out stops at the first column that
    /// blocks: one whose worker has failed, earlier or while the submitter
    /// waited for it. The columns before it have got their array, that
    /// column and the columns after it have not, the batch is given up and
    /// `QueueClosed` names the column. The encoder has then failed for
    /// good.
    ///
    /// A batch of the right width is accepted exactly when no column
    /// blocks.
    pub fn encode_batch(&mut self, batch: &RowBatch) -> (result: Result<(), EncodeError>)
        requires
            old(self).wf(),
            batch.wf(),
            old(self).offered() + batch@.rows <= usize::MAX,
        ensures
            final(self).wf(),
            final(self).width() == old(self).width(),
            final(self).fields() == old(self).fields(),
            final(self).bases() == old(self).bases(),
            result is Ok <==> batch@.columns.len() == old(self).width() && forall|i: int|
                0 <= i < old(self).width() ==> !#[trigger] old(self).blocks(i),
            match result {
                Ok(()) => {
                    &&& final(self).failed() is None
                    &&& final(self).accepted() == old(self).accepted().push(batch@)
                    &&& final(self).rows() == old(self).rows() + batch@.rows
                    &&& final(self).offered() == old(self).offered() + batch@.rows
                    &&& forall|i: int|
                        0 <= i < old(self).width() ==> #[trigger] old(self).took(
                            final(self),
                            i,
                            batch@.columns[i],
                        )
                },
                Err(EncodeError::ColumnCountMismatch { expected, found }) => {
                    &&& expected == old(self).width()
                    &&& found == batch@.columns.len()
                    &&& expected != found
                    &&& *final(self) == *old(self)
                },
                Err(EncodeError::QueueClosed { column }) => {
                    &&& batch@.columns.len() == old(self).width()
                    &&& column < old(self).width()
                    &&& old(self).blocks(column as int)
                    &&& forall|i: int| 0 <= i < column ==> !#[trigger] old(self).blocks(i)
                    &&& final(self).submitted(column as int) == old(self).submitted(column as int)
                    &&& final(self).failed() == Some(column)
                    &&& final(self).accepted() == old(self).accepted()
                    &&& final(self).rows() == old(self).rows()
                    &&& final(self).offered() == old(self).offered() + batch@.rows
                    &&& forall|i: int|
                        0 <= i < column ==> #[trigger] old(self).took(
                            final(self),
                            i,
                            batch@.columns[i],
                        )
                    &&& forall|i: int|
                        column < i < old(self).width() ==> #[trigger] old(self).kept(final(self), i)
                },
                Err(_) => false,
            },
    {
        let width = self.lanes.len();
        let found = batch.num_columns();
        if found != width {
            return Err(EncodeError::ColumnCountMismatch { expected: width, found });
        }
        let ghost before = self.accepted@;
        let ghost after = before.push(batch@);
        self.offered = self.offered + batch.num_rows();
        let mut i: usize = 0;
        while i < width
            invariant
                i <= width,
                width == self.lanes@.len(),
                width == old(self).lanes@.len(),
                batch@.columns.len() == width,
                batch.wf(),
                old(self).wf(),
                self.rows == old(self).rows,
                self.failed == old(self).failed,
                self.accepted@ == before,
                before == old(self).accepted@,
                after == before.push(batch@),
                self.offered == old(self).offered + batch@.rows,
                old(self).failed matches Some(column) ==> i <= column,
                forall|j: int|
                    0 <= j < width ==> {
                        &&& (#[trigger] self.lanes@[j]).wf(j)
                        &&& self.lanes@[j].field == old(self).lanes@[j].field
                        &&& self.lanes@[j].base == old(self).lanes@[j].base
                    },
                forall|j: int|
                    0 <= j < i ==> {
                        &&& (#[trigger] self.lanes@[j]).state is Running
                        &&& slices_rows(self.lanes@[j].submitted@) <= self.offered
                        &&& !old(self).blocks(j)
                        &&& old(self).took(self, j, batch@.columns[j])
                    },
                forall|j: int| i <= j < width ==> (#[trigger] self.lanes@[j]) == old(self).lanes@[j],
            decreases width - i,
        {
            let ghost lanes_before = self.lanes@;
            assert(lanes_before[i as int] == old(self).lanes@[i as int]);
            assert(old(self).lanes@[i as int].wf(i as int));
            proof {
                old(self).lanes@[i as int].queue.lemma_bounded();
            }
            match self.failed {
                Some(column) => {
                    if column == i {
                        proof {
                            assert(old(self).blocks(i as int));
                            assert(self.fields() =~= old(self).fields());
                            assert(self.bases() =~= old(self).bases());
                            assert forall|j: int| i < j < width implies #[trigger] old(self).kept(
                                self,
                                j,
                            ) by {
                                assert(self.lanes@[j] == old(self).lanes@[j]);
                            }
                            assert forall|j: int|
                                0 <= j < self.lanes@.len() && (
                                #[trigger] self.lanes@[j]).state is Running implies slices_rows(
                                self.lanes@[j].submitted@,
                            ) <= self.offered by {
                                if j >= i {
                                    assert(self.lanes@[j] == old(self).lanes@[j]);
                                }
                            }
                        }
                        return Err(EncodeError::QueueClosed { column: i });
                    }
                },
                None => {},
            }
            assert(self.lanes@[i as int].state is Running);
            let slice = array_clone(batch.column(i));
            if self.lanes[i].queue.is_full() {
                let alive = self.lanes[i].advance(Ghost(i as int));
                if !alive {
                    self.failed = Some(i);
                    proof {
                        assert(old(self).blocks(i as int));
                        assert(self.fields() =~= old(self).fields());
                        assert(self.bases() =~= old(self).bases());
                        assert forall|j: int| 0 <= j < width implies {
                            &&& (#[trigger] self.lanes@[j]).wf(j)
                            &&& self.lanes@[j].field == old(self).lanes@[j].field
                            &&& self.lanes@[j].base == old(self).lanes@[j].base
                        } by {
                            if j != i {
                                assert(self.lanes@[j] == lanes_before[j]);
                            }
                        }
                        assert forall|j: int| 0 <= j < i implies {
                            &&& (#[trigger] self.lanes@[j]).state is Running
                            &&& old(self).took(self, j, batch@.columns[j])
                        } by {
                            assert(self.lanes@[j] == lanes_before[j]);
                        }
                        assert forall|j: int| i < j < width implies #[trigger] old(self).kept(
                            self,
                            j,
                        ) by {
                            assert(self.lanes@[j] == lanes_before[j]);
                            assert(self.lanes@[j] == old(self).lanes@[j]);
                        }
                        assert forall|j: int|
                            0 <= j < self.lanes@.len() && (
                            #[trigger] self.lanes@[j]).state is Running implies slices_rows(
                            self.lanes@[j].submitted@,
                        ) <= self.offered by {
                            assert(self.lanes@[j] == lanes_before[j]);
                            if j > i {
                                assert(self.lanes@[j] == old(self).lanes@[j]);
                            }
                        }
                    }
                    return Err(EncodeError::QueueClosed { column: i });
                }
            }
            let ghost lanes_mid = self.lanes@;
            proof {
                assert(lanes_mid[i as int].state is Running);
                assert(lanes_mid[i as int].writer() == after_wait(
                    old(self).writer(i as int),
                    old(self).fields()[i as int],
                    old(self).queued(i as int),
                ));
                assert(lanes_mid[i as int].submitted == old(self).lanes@[i as int].submitted);
            }
            self.lanes[i].submit(slice, Ghost(i as int));
            proof {
                let lane = self.lanes@[i as int];
                crate::worker::lemma_slices_push(
                    lane.field@,
                    old(self).lanes@[i as int].submitted@,
                    slice,
                );
                assert(array_len(batch@.columns[i as int]) == batch@.rows);
                assert(lane.queue@ == after_submit(old(self).queued(i as int), slice));
                assert(!old(self).blocks(i as int));
                assert forall|j: int| 0 <= j < width implies {
                    &&& (#[trigger] self.lanes@[j]).wf(j)
                    &&& self.lanes@[j].field == old(self).lanes@[j].field
                    &&& self.lanes@[j].base == old(self).lanes@[j].base
                } by {
                    if j != i {
                        assert(self.lanes@[j] == lanes_before[j]);
                    }
                }
                assert forall|j: int| 0 <= j < i + 1 implies {
                    &&& (#[trigger] self.lanes@[j]).state is Running
                    &&& slices_rows(self.lanes@[j].submitted@) <= self.offered
                    &&& !old(self).blocks(j)
                    &&& old(self).took(self, j, batch@.columns[j])
                } by {
                    if j != i {
                        assert(self.lanes@[j] == lanes_before[j]);
                    }
                }
                assert forall|j: int| i + 1 <= j < width implies (#[trigger] self.lanes@[j]) == old(
                    self,
                ).lanes@[j] by {
                    assert(self.lanes@[j] == lanes_before[j]);
                }
            }
            i += 1;
        }
        self.rows = self.rows + batch.num_rows();
        proof {
            lemma_column_slices_push(before, batch@, 0);
            self.accepted = Ghost(after);
            assert(self.fields() =~= old(self).fields());
            assert(self.bases() =~= old(self).bases());
            assert forall|j: int| 0 <= j < self.lanes@.len() implies {
                &&& (#[trigger] self.lanes@[j]).state is Running
                &&& self.lanes@[j].submitted@ == column_slices(self.accepted@, j)
            } by {
                lemma_column_slices_push(before, batch@, j);
                assert(old(self).took(self, j, batch@.columns[j]));
                assert(old(self).lanes@[j].submitted@ == column_slices(before, j));
            }
        }
        Ok(())
    }

    /// Lets the worker of one column encode the oldest slice of its queue, if
    /// there is one and no worker has failed. Returns whether a slice was
    /// encoded: that is so exactly when there was one to encode and the
    /// worker could encode it. A worker that fails on the slice is recorded
    /// as failed.
    pub fn run_worker(&mut self, column: usize) -> (progress: bool)
        requires
            old(self).wf(),
            column < old(self).width(),
        ensures
            final(self).wf(),
            final(self).width() == old(self).width(),
            final(self).fields() == old(self).fields(),
            final(self).bases() == old(self).bases(),
            final(self).accepted() == old(self).accepted(),
            final(self).rows() == old(self).rows(),
            final(self).offered() == old(self).offered(),
            forall|j: int|
                0 <= j < old(self).width() && j != column ==> #[trigger] old(self).kept(
                    final(self),
                    j,
                ),
            progress <==> old(self).failed() is None && old(self).queued(column as int).len() > 0
                && slice_ok(
                old(self).writer(column as int),
                old(self).fields()[column as int],
                old(self).queued(column as int)[0],
            ),
            old(self).failed() is Some || old(self).queued(column as int).len() == 0
                ==> *final(self) == *old(self),
            progress ==> {
                &&& final(self).failed() is None
                &&& final(self).encoded(column as int) == old(self).encoded(column as int).push(
                    old(self).queued(column as int)[0],
                )
                &&& final(self).queued(column as int) == old(self).queued(column as int).subrange(
                    1,
                    old(self).queued(column as int).len() as int,
                )
                &&& final(self).writer(column as int) == after_slice(
                    old(self).writer(column as int),
                    old(self).fields()[column as int],
                    old(self).queued(column as int)[0],
                )
                &&& final(self).submitted(column as int) == old(self).submitted(column as int)
            },
            !progress && old(self).failed() is None && old(self).queued(column as int).len() > 0
                ==> final(self).failed() == Some(column),
    {
        if self.failed.is_some() {
            return false;
        }
        assert(self.lanes@[column as int].wf(column as int));
        if self.lanes[column].queue.len() == 0 {
            return false;
        }
        let ghost lanes_before = self.lanes@;
        let alive = self.lanes[column].advance(Ghost(column as int));
        if !alive {
            self.failed = Some(column);
        }
        proof {
            assert forall|j: int| 0 <= j < self.lanes@.len() implies (#[trigger] self.lanes@[j]).wf(
                j,
            ) by {
                if j != column {
                    assert(self.lanes@[j] == lanes_before[j]);
                }
            }
            assert forall|j: int|
                0 <= j < self.lanes@.len() && j != column implies #[trigger] old(self).kept(self, j) by {
                assert(self.lanes@[j] == lanes_before[j]);
            }
            assert forall|j: int|
                0 <= j < self.lanes@.len() && (#[trigger] self.lanes@[j]).state is Running implies {
                &&& slices_rows(self.lanes@[j].submitted@) <= self.offered
                &&& self.lanes@[j].submitted@ == column_slices(self.accepted@, j)
            } by {
                if j != column {
                    assert(self.lanes@[j] == lanes_before[j]);
                }
                assert(lanes_before[j].state is Running);
            }
            assert forall|j: int| 0 <= j < self.lanes@.len() && j != column implies (
            #[trigger] self.lanes@[j]).state is Running by {
                assert(self.lanes@[j] == lanes_before[j]);
            }
            assert(self.fields() =~= old(self).fields());
            assert(self.bases() =~= old(self).bases());
        }
        alive
    }

    /// Completes the row group: closes every queue, lets every worker encode
    /// what is left in its queue and close its writer, and returns the
    /// chunks in column order.
    ///
    /// The workers are run from the last column to the first, so the chunks
    /// come in in the reverse of column order and are put back in order by
    /// their column index.
    ///
    /// It succeeds exactly when no worker has failed and every worker
    /// encodes what waits in its queue and closes its writer. There is then
    /// one chunk per column, the chunk at position `i` is that of column
    /// `i`, every chunk has the rows of all accepted batches, and the chunk
    /// of column `i` holds, after what its writer held at the start, the
    /// leaf columns of the column's slice of each accepted batch, in the
    /// order in which the batches were accepted.
    ///
    /// A failure names the column it comes from: the first column whose
    /// worker had failed before, or else the last column whose worker does
    /// not get through. It is the failure of that worker.
    pub fn close(self) -> (result: Result<Vec<ColumnChunk>, EncodeError>)
        requires
            self.wf(),
        ensures
            result is Ok <==> self.completes_with(Seq::empty()),
            (exists|i: int|
                0 <= i < self.width() && !#[trigger] decomposable(
                    self.fields()[i],
                    self.submitted(i),
                )) ==> result is Err,
            match result {
                Ok(chunks) => encodes(chunks@, self.fields(), self.bases(), self.accepted()),
                Err(error) => {
                    &&& error.spec_column() matches Some(column)
                    &&& column < self.width()
                    &&& (error is Leaves || error is Write || error is Finish)
                    &&& self.failed() matches Some(failed) ==> column == failed
                    &&& self.failed() is None ==> {
                        &&& !self.column_completes(column as int, Seq::empty())
                        &&& forall|j: int|
                            column < j < self.width() ==> #[trigger] self.column_completes(
                                j,
                                Seq::empty(),
                            )
                    }
                    &&& error is Leaves ==> !decomposable(
                        self.fields()[column as int],
                        self.submitted(column as int),
                    )
                },
            },
    {
        let width = self.lanes.len();
        let ghost all = self.lanes@;
        let ghost accepted = self.accepted@;
        let ghost rows = self.rows as nat;
        let ghost none = Seq::<ArrayData>::empty();
        let mut lanes = self.lanes;
        proof {
            assert forall|i: int| 0 <= i < width implies column_slices(Seq::<BatchView>::empty(), i)
                == none by {
                assert(column_slices(Seq::<BatchView>::empty(), i) =~= none);
            }
        }
        if let Some(column) = self.failed {
            let lane = lanes.remove(column);
            assert(lane == all[column as int]);
            assert(lane.wf(column as int));
            return match lane.state {
                LaneState::Crashed(cause) => Err(cause),
                LaneState::Running(_) => Err(EncodeError::QueueClosed { column }),
            };
        }
        let mut completed: Vec<ColumnChunk> = Vec::new();
        while lanes.len() > 0
            invariant
                all == self.lanes@,
                accepted == self.accepted@,
                rows == self.rows,
                width == all.len(),
                none == Seq::<ArrayData>::empty(),
                forall|i: int|
                    0 <= i < width ==> #[trigger] column_slices(Seq::<BatchView>::empty(), i)
                        == none,
                self.wf(),
                self.failed is None,
                lanes@ == all.subrange(0, lanes@.len() as int),
                lanes@.len() <= width,
                completed@.len() == width - lanes@.len(),
                forall|k: int|
                    0 <= k < completed@.len() ==> {
                        &&& (#[trigger] completed@[k]).index() == width - 1 - k
                        &&& completed@[k].rows() == rows
                        &&& self.column_completes(width - 1 - k, none)
                        &&& decomposable(
                            all[width - 1 - k].field@,
                            column_slices(accepted, width - 1 - k),
                        )
                        &&& completed@[k].leaves() == all[width - 1 - k].base@ + slices_leaves(
                            all[width - 1 - k].field@,
                            column_slices(accepted, width - 1 - k),
                        )
                    },
            decreases lanes@.len(),
        {
            let index = lanes.len() - 1;
            let lane = lanes.pop().unwrap();
            assert(lane == all[index as int]);
            assert(all[index as int].wf(index as int));
            assert(all[index as int].state is Running);
            assert(lane.submitted@ == column_slices(accepted, index as int));
            assert(slices_rows(lane.submitted@) <= self.offered);
            let ghost field = lane.field@;
            let ghost base = lane.base@;
            let ghost submitted = lane.submitted@;
            let ghost first = lane.writer();
            let ghost waiting = lane.queue@;
            assert(self.fields()[index as int] == field);
            assert(waiting + none == waiting);
            let Lane { queue, state, .. } = lane;
            let mut queue = queue;
            queue.close();
            match state {
                LaneState::Running(worker) => {
                    let mut worker = worker;
                    proof {
                        lemma_column_rows(accepted, width as nat, index as int);
                        assert forall|j: int| index < j < width implies #[trigger] self.column_completes(
                            j,
                            none,
                        ) by {
                            let k = width - 1 - j;
                            assert(completed@[k].index() == j);
                        }
                        assert(column_slices(Seq::<BatchView>::empty(), index as int) == none);
                    }
                    loop
                        invariant_except_break
                            queue.wf(),
                            queue.is_closed(),
                        invariant
                            worker.wf(),
                            worker.index() == index,
                            worker.field() == field,
                            worker.base() == base,
                            index < width,
                            width == self.width(),
                            field == self.fields()[index as int],
                            submitted == self.submitted(index as int),
                            first == self.writer(index as int),
                            waiting == self.queued(index as int),
                            waiting + none == waiting,
                            none == Seq::<ArrayData>::empty(),
                            column_slices(Seq::<BatchView>::empty(), index as int) == none,
                            self.failed() is None,
                            worker.taken() + queue@ == submitted,
                            slices_rows(submitted) <= usize::MAX,
                            drains(worker.writer(), field, queue@) == drains(first, field, waiting),
                            forall|j: int|
                                index < j < width ==> #[trigger] self.column_completes(j, none),
                        ensures
                            queue@.len() == 0,
                        decreases queue@.len(),
                    {
                        let ghost taken = worker.taken();
                        let ghost queued = queue@;
                        let ghost current = worker.writer();
                        match queue.recv() {
                            RecvOutcome::Slice(slice) => {
                                proof {
                                    let rest = queued.subrange(1, queued.len() as int);
                                    assert(rest == queued.skip(1));
                                    assert(taken + queued == taken.push(slice) + rest);
                                    assert((taken + queued)[taken.len() as int] == slice);
                                    lemma_slices_rows_concat(taken.push(slice), rest);
                                    crate::worker::lemma_slices_push(field, taken, slice);
                                    worker.lemma_wf();
                                }
                                match worker.encode_slice(&slice) {
                                    Ok(()) => {},
                                    Err(error) => {
                                        proof {
                                            assert(submitted[taken.len() as int] == slice);
                                            assert(drains(current, field, queued) is None);
                                            assert(!self.column_completes(index as int, none));
                                            assert(!self.column_completes(
                                                index as int,
                                                column_slices(
                                                    Seq::<BatchView>::empty(),
                                                    index as int,
                                                ),
                                            ));
                                            if error is Leaves {
                                                assert(!crate::worker::encodable(
                                                    field,
                                                    submitted[taken.len() as int],
                                                ));
                                            }
                                        }
                                        return Err(error);
                                    },
                                }
                            },
                            _ => {
                                break ;
                            },
                        }
                    }
                    proof {
                        assert(worker.taken() + queue@ == worker.taken());
                        worker.lemma_wf();
                        assert(drains(worker.writer(), field, queue@) == Some(worker.writer()));
                    }
                    let chunk = match worker.finish() {
                        Ok(chunk) => chunk,
                        Err(error) => {
                            proof {
                                assert(!self.column_completes(index as int, none));
                                assert(!self.column_completes(
                                    index as int,
                                    column_slices(Seq::<BatchView>::empty(), index as int),
                                ));
                            }
                            return Err(error);
                        },
                    };
                    assert(self.column_completes(index as int, none));
                    completed.push(chunk);
                },
                LaneState::Crashed(cause) => {
                    return Err(cause);
                },
            }
        }
        match order_chunks(completed, width) {
            Ok(chunks) => {
                proof {
                    assert forall|i: int| 0 <= i < chunks@.len() implies column_encoded(
                        #[trigger] chunks@[i],
                        self.fields()[i],
                        self.bases()[i],
                        column_slices(self.accepted(), i),
                        total_rows(self.accepted()),
                    ) by {
                        let k = width - 1 - i;
                        assert(0 <= k < completed@.len());
                        let chunk = completed@[k];
                        assert(chunk.index() == i);
                        assert(chunks@[chunk.index() as int] == chunk);
                        assert(chunks@[i] == chunk);
                        assert(self.fields()[i] == all[i].field@);
                        assert(self.bases()[i] == all[i].base@);
                        assert(width - 1 - k == i);
                        assert(chunk.rows() == total_rows(self.accepted()));
                    }
                    assert(chunks@.len() == self.fields().len());
                    assert(encodes(chunks@, self.fields(), self.bases(), self.accepted()));
                    assert forall|i: int| 0 <= i < self.width() implies decomposable(
                        self.fields()[i],
                        #[trigger] self.submitted(i),
                    ) by {
                        assert(column_encoded(
                            chunks@[i],
                            self.fields()[i],
                            self.bases()[i],
                            column_slices(self.accepted(), i),
                            total_rows(self.accepted()),
                        ));
                        assert(all[i].submitted@ == column_slices(accepted, i));
                    }
                    assert forall|i: int| 0 <= i < self.width() implies #[trigger] self.column_completes(
                        i,
                        column_slices(Seq::<BatchView>::empty(), i),
                    ) by {
                        let k = width - 1 - i;
                        assert(completed@[k].index() == i);
                        assert(self.column_completes(width - 1 - k, none));
                        assert(column_slices(Seq::<BatchView>::empty(), i) == none);
                    }
                }
                Ok(chunks)
            },
            Err(error) => {
                proof {
                    assert forall|i: int| 0 <= i < width implies #[trigger] crate::order::carried(
                        completed@,
                        i,
                    ) by {
                        assert(completed@[width - 1 - i].index() == i);
                    }
                    assert(crate::order::covers(completed@, width as nat));
                }
                Err(error)
            },
        }
    }

    /// The number of columns.
    pub fn num_columns(&self) -> (width: usize)
        ensures
            width == self.width(),
    {
        self.lanes.len()
    }

    /// The number of rows of the batches accepted so far.
    pub fn num_rows(&self) -> (rows: usize)
        ensures
            rows == self.rows(),
    {
        self.rows
    }

    /// The number of rows of the batches offered so far with the right
    /// number of columns.
    pub fn num_offered_rows(&self) -> (rows: usize)
        ensures
            rows == self.offered(),
    {
        self.offered
    }

    /// The number of slices that wait in the queue of a column.
    pub fn queue_len(&self, column: usize) -> (len: usize)
        requires
            column < self.width(),
        ensures
            len == self.queued(column as int).len(),
    {
        self.lanes[column].queue.len()
    }

    /// The first column whose worker has failed, if one has.
    pub fn failed_column(&self) -> (column: Option<usize>)
        ensures
            column == self.failed(),
    {
        self.failed
    }
}

} // verus!

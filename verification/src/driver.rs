//! Feeding one row group's worth of rows to an encoder.

use crate::batch::{BatchView, RowBatch};
use crate::encoder::{
    column_slices, encodes, lemma_blocked_prospect, lemma_submit_prospect,
    lemma_total_rows_concat, total_rows, RowGroupEncoder,
};
use crate::error::EncodeError;
use crate::worker::ColumnChunk;
use vstd::prelude::*;

verus! {

/// The most rows that are handed to the encoder in one batch.
pub const MAX_BATCH_ROWS: usize = 100;

/// The number of rows of the batch that a row group of `rows_per_row_group`
/// rows is fed from: the whole group where it is small, and
/// `MAX_BATCH_ROWS` otherwise.
pub fn batch_rows(rows_per_row_group: usize) -> (rows: usize)
    ensures
        rows == if rows_per_row_group < MAX_BATCH_ROWS {
            rows_per_row_group
        } else {
            MAX_BATCH_ROWS
        },
{
    if rows_per_row_group < MAX_BATCH_ROWS {
        rows_per_row_group
    } else {
        MAX_BATCH_ROWS
    }
}

/// The batches that make up `target` rows when `batch` is fed again and
/// again: whole copies as long as they fit, and then the first rows of one
/// more copy for what is left.
pub open spec fn planned(batch: BatchView, target: nat) -> Seq<BatchView>
    decreases target,
{
    if target == 0 || batch.rows == 0 {
        Seq::empty()
    } else if target < batch.rows {
        seq![batch.prefix(target)]
    } else {
        seq![batch] + planned(batch, (target - batch.rows) as nat)
    }
}

/// The planned batches hold exactly `target` rows between them: no row is
/// missing and none is extra. None is empty and none has more rows than
/// `batch`.
pub proof fn lemma_planned_rows(batch: BatchView, target: nat)
    requires
        batch.rows > 0,
    ensures
        total_rows(planned(batch, target)) == target,
        forall|k: int|
            0 <= k < planned(batch, target).len() ==> 0 < (#[trigger] planned(batch, target)[k]).rows
                <= batch.rows,
    decreases target,
{
    reveal_with_fuel(total_rows, 2);
    let plan = planned(batch, target);
    if target == 0 {
    } else if target < batch.rows {
        assert(plan.drop_last() =~= Seq::<BatchView>::empty());
    } else {
        let rest = planned(batch, (target - batch.rows) as nat);
        lemma_planned_rows(batch, (target - batch.rows) as nat);
        lemma_total_rows_concat(seq![batch], rest);
        assert(seq![batch].drop_last() =~= Seq::<BatchView>::empty());
        assert forall|k: int| 0 <= k < plan.len() implies 0 < (#[trigger] plan[k]).rows
            <= batch.rows by {
            if k > 0 {
                assert(plan[k] == rest[k - 1]);
            }
        }
    }
}

/// Accepting a batch that no column blocks does not change what becomes of
/// the row group: the encoder completes with the batches that follow exactly
/// when it would have completed with the batch and those.
pub proof fn lemma_accepted_prospect(
    before: RowGroupEncoder,
    after: RowGroupEncoder,
    next: BatchView,
    rest: Seq<BatchView>,
)
    requires
        after.width() == before.width(),
        after.fields() == before.fields(),
        before.failed() is None,
        after.failed() is None,
        next.columns.len() == before.width(),
        forall|i: int| 0 <= i < before.width() ==> !#[trigger] before.blocks(i),
        forall|i: int| 0 <= i < before.width() ==> #[trigger] before.took(&after, i, next.columns[i]),
    ensures
        after.completes_with(rest) == before.completes_with(seq![next] + rest),
{
    let all = seq![next] + rest;
    assert forall|i: int| 0 <= i < before.width() implies after.column_completes(
        i,
        column_slices(rest, i),
    ) == before.column_completes(i, column_slices(all, i)) by {
        assert(!before.blocks(i));
        assert(before.took(&after, i, next.columns[i]));
        assert(column_slices(all, i) =~= seq![next.columns[i]] + column_slices(rest, i));
        lemma_submit_prospect(
            before.writer(i),
            before.fields()[i],
            before.queued(i),
            next.columns[i],
            column_slices(rest, i),
        );
    }
    if after.completes_with(rest) {
        assert forall|i: int| 0 <= i < before.width() implies #[trigger] before.column_completes(
            i,
            column_slices(all, i),
        ) by {
            assert(after.column_completes(i, column_slices(rest, i)));
        }
    }
    if before.completes_with(all) {
        assert forall|i: int| 0 <= i < after.width() implies #[trigger] after.column_completes(
            i,
            column_slices(rest, i),
        ) by {
            assert(before.column_completes(i, column_slices(all, i)));
        }
    }
}

/// An encoder with a column that blocks does not complete, whatever batches
/// follow.
pub proof fn lemma_blocked_encoder(encoder: RowGroupEncoder, column: int, more: Seq<BatchView>)
    requires
        0 <= column < encoder.width(),
        encoder.blocks(column),
    ensures
        !encoder.completes_with(more),
{
    if encoder.failed() is None {
        lemma_blocked_prospect(
            encoder.writer(column),
            encoder.fields()[column],
            encoder.queued(column),
            column_slices(more, column),
        );
        assert(!encoder.column_completes(column, column_slices(more, column)));
    }
}

/// Encodes a row group of exactly `rows_per_row_group` rows and returns its
/// chunks in column order.
///
/// The rows are those of `batch`, fed again and again; the last batch is cut
/// short where a whole one would go past the target, so that no row is
/// missing and none is extra. The encoder is then closed.
///
/// A batch that does not have the encoder's width is refused. Otherwise the
/// row group succeeds exactly when no worker has failed and every worker
/// encodes what waits in its queue and its slice of each planned batch, and
/// closes its writer. A failure is then that of a worker.
pub fn encode_row_group(
    batch: &RowBatch,
    rows_per_row_group: usize,
    encoder: RowGroupEncoder,
) -> (result: Result<Vec<ColumnChunk>, EncodeError>)
    requires
        encoder.wf(),
        batch.wf(),
        rows_per_row_group > 0 ==> batch@.rows > 0,
        encoder.offered() + rows_per_row_group <= usize::MAX,
    ensures
        rows_per_row_group == 0 || batch@.columns.len() == encoder.width() ==> (result is Ok
            <==> encoder.completes_with(planned(batch@, rows_per_row_group as nat))),
        rows_per_row_group > 0 && batch@.columns.len() != encoder.width() ==> result matches Err(
            EncodeError::ColumnCountMismatch { .. },
        ),
        result matches Ok(chunks) ==> {
            &&& encodes(
                chunks@,
                encoder.fields(),
                encoder.bases(),
                encoder.accepted() + planned(batch@, rows_per_row_group as nat),
            )
            &&& total_rows(encoder.accepted() + planned(batch@, rows_per_row_group as nat))
                == encoder.rows() + rows_per_row_group
            &&& forall|i: int|
                0 <= i < chunks@.len() ==> (#[trigger] chunks@[i]).rows() == encoder.rows()
                    + rows_per_row_group
        },
        result matches Err(EncodeError::ColumnCountMismatch { expected, found }) ==> {
            &&& rows_per_row_group > 0
            &&& expected == encoder.width()
            &&& found == batch@.columns.len()
            &&& expected != found
        },
        result matches Err(error) ==> {
            ||| error is ColumnCountMismatch
            ||| {
                &&& error.spec_column() matches Some(column)
                &&& column < encoder.width()
                &&& (error is Leaves || error is Write || error is Finish)
            }
        },
{
    let mut running = encoder;
    let ghost start = encoder;
    let ghost target = rows_per_row_group as nat;
    let ghost fed = Seq::<BatchView>::empty();
    proof {
        encoder.lemma_columns();
        encoder.lemma_rows();
    }
    let mut rows_written: usize = 0;
    assert(start.accepted() + fed == start.accepted());
    while rows_written < rows_per_row_group
        invariant
            rows_written <= rows_per_row_group,
            target == rows_per_row_group,
            batch.wf(),
            rows_per_row_group > 0 ==> batch@.rows > 0,
            start == encoder,
            rows_written > 0 ==> batch@.columns.len() == start.width(),
            running.wf(),
            start.failed() is Some ==> running.failed() is Some,
            rows_written > 0 ==> running.failed() is None,
            rows_written == 0 ==> running == start,
            running.width() == start.width(),
            running.fields() == start.fields(),
            running.bases() == start.bases(),
            running.rows() == start.rows() + rows_written,
            running.offered() == start.offered() + rows_written,
            start.offered() + rows_per_row_group <= usize::MAX,
            running.accepted() == start.accepted() + fed,
            fed + planned(batch@, (target - rows_written) as nat) == planned(batch@, target),
            batch@.columns.len() == start.width() ==> running.completes_with(
                planned(batch@, (target - rows_written) as nat),
            ) == start.completes_with(planned(batch@, target)),
        decreases rows_per_row_group - rows_written,
    {
        let rows_left = rows_per_row_group - rows_written;
        let ghost rest = planned(batch@, (target - rows_written) as nat);
        let ghost previous = running;
        let outcome;
        let step;
        let ghost next;
        if rows_left < batch.num_rows() {
            let part = batch.slice(rows_left);
            proof {
                next = part@;
                assert(rest == seq![next]);
            }
            step = rows_left;
            outcome = running.encode_batch(&part);
        } else {
            proof {
                next = batch@;
                assert(rest == seq![next] + planned(batch@, (target - rows_written - next.rows) as nat));
            }
            step = batch.num_rows();
            outcome = running.encode_batch(batch);
        }
        let ghost after = planned(batch@, (target - rows_written - next.rows) as nat);
        proof {
            assert(rest == seq![next] + after);
            assert(next.columns.len() == batch@.columns.len());
            previous.lemma_failed();
        }
        match outcome {
            Ok(()) => {},
            Err(EncodeError::QueueClosed { column }) => {
                proof {
                    lemma_blocked_encoder(previous, column as int, rest);
                    running.lemma_failed();
                }
                return running.close();
            },
            Err(error) => {
                return Err(error);
            },
        }
        proof {
            if previous.failed() is Some {
                assert(previous.blocks(previous.failed()->Some_0 as int));
            }
            lemma_accepted_prospect(previous, running, next, after);
            assert(fed.push(next) + after == fed + (seq![next] + after));
            assert(start.accepted() + fed.push(next) == (start.accepted() + fed).push(next));
            fed = fed.push(next);
        }
        rows_written = rows_written + step;
    }
    proof {
        assert(planned(batch@, 0) == Seq::<BatchView>::empty());
        assert(fed + Seq::<BatchView>::empty() == fed);
        assert(running.accepted() == encoder.accepted() + planned(batch@, target));
        assert(running.rows() == encoder.rows() + rows_per_row_group);
    }
    proof {
        running.lemma_rows();
    }
    let result = running.close();
    proof {
        if result is Ok {
            crate::encoder::lemma_chunks_agree(
                result->Ok_0@,
                encoder.fields(),
                encoder.bases(),
                encoder.accepted() + planned(batch@, target),
            );
        }
    }
    result
}

} // verus!

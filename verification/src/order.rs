//! Putting finished chunks back into column order.
//!
//! Workers finish in whatever order they finish. Each chunk carries the index
//! of its column, and is put into the slot of that index; the slots are then
//! read out from the first to the last.

use crate::error::EncodeError;
use crate::worker::ColumnChunk;
use vstd::prelude::*;

verus! {

/// Some chunk carries the index `column`.
pub open spec fn carried(completed: Seq<ColumnChunk>, column: int) -> bool {
    exists|j: int| 0 <= j < completed.len() && (#[trigger] completed[j]).index() == column
}

/// Every index below `width` is carried by exactly one chunk, and no chunk
/// carries another index.
pub open spec fn covers(completed: Seq<ColumnChunk>, width: nat) -> bool {
    &&& forall|j: int| 0 <= j < completed.len() ==> (#[trigger] completed[j]).index() < width
    &&& forall|j: int, k: int|
        0 <= j < k < completed.len() ==> (#[trigger] completed[j]).index() != (
        #[trigger] completed[k]).index()
    &&& forall|i: int| 0 <= i < width ==> #[trigger] carried(completed, i)
}

/// The chunks stand in column order: the chunk at position `i` carries the
/// index `i`.
pub open spec fn in_column_order(chunks: Seq<ColumnChunk>) -> bool {
    forall|i: int| 0 <= i < chunks.len() ==> (#[trigger] chunks[i]).index() == i
}

/// Every chunk of `completed` stands in `ordered` at the position of its
/// index.
pub open spec fn placed(completed: Seq<ColumnChunk>, ordered: Seq<ColumnChunk>) -> bool {
    forall|j: int|
        0 <= j < completed.len() ==> {
            &&& (#[trigger] completed[j]).index() < ordered.len()
            &&& ordered[completed[j].index() as int] == completed[j]
        }
}

/// The slots hold the chunks of `completed` from position `from` on, each in
/// the slot of its index, and nothing else.
spec fn filled(slots: Seq<Option<ColumnChunk>>, completed: Seq<ColumnChunk>, from: int) -> bool {
    &&& forall|j: int|
        from <= j < completed.len() ==> {
            &&& (#[trigger] completed[j]).index() < slots.len()
            &&& slots[completed[j].index() as int] == Some(completed[j])
        }
    &&& forall|i: int|
        0 <= i < slots.len() && (#[trigger] slots[i]) is Some ==> exists|j: int|
            from <= j < completed.len() && completed[j].index() == i
    &&& forall|j: int, k: int|
        from <= j < k < completed.len() ==> (#[trigger] completed[j]).index() != (
        #[trigger] completed[k]).index()
}

/// Sorts finished chunks by column index.
///
/// `completed` holds the chunks in the order in which the workers finished.
/// The result holds the same chunks, the one of column 0 first. It is `Ok`
/// exactly when the chunks cover the columns `0..width`, each once. A chunk
/// whose index is out of range or taken is reported as `Misplaced`, an index
/// that no chunk carries as `Missing`.
pub fn order_chunks(completed: Vec<ColumnChunk>, width: usize) -> (result: Result<
    Vec<ColumnChunk>,
    EncodeError,
>)
    ensures
        result is Ok <==> covers(completed@, width as nat),
        match result {
            Ok(ordered) => {
                &&& ordered@.len() == width
                &&& in_column_order(ordered@)
                &&& placed(completed@, ordered@)
            },
            Err(EncodeError::Misplaced { column }) => {
                exists|j: int|
                    0 <= j < completed@.len() && (#[trigger] completed@[j]).index() == column && (
                    column >= width || exists|k: int|
                        0 <= k < completed@.len() && k != j && (#[trigger] completed@[k]).index()
                            == column)
            },
            Err(EncodeError::Missing { column }) => {
                &&& column < width
                &&& forall|j: int|
                    0 <= j < completed@.len() ==> (#[trigger] completed@[j]).index() != column
            },
            Err(_) => false,
        },
{
    let ghost all = completed@;
    let mut pending = completed;
    let mut slots: Vec<Option<ColumnChunk>> = Vec::new();
    let mut i: usize = 0;
    while i < width
        invariant
            i <= width,
            slots@.len() == i,
            forall|k: int| 0 <= k < i ==> (#[trigger] slots@[k]) is None,
        decreases width - i,
    {
        slots.push(None);
        i += 1;
    }
    while pending.len() > 0
        invariant
            all == completed@,
            pending@ == all.subrange(0, pending@.len() as int),
            pending@.len() <= all.len(),
            slots@.len() == width,
            filled(slots@, all, pending@.len() as int),
        decreases pending@.len(),
    {
        let ghost j = pending@.len() - 1;
        let chunk = pending.pop().unwrap();
        assert(chunk == all[j]);
        let column = chunk.column_index();
        if column >= width {
            assert(all[j].index() == column);
            return Err(EncodeError::Misplaced { column });
        }
        if slots[column].is_some() {
            proof {
                assert(slots@[column as int] is Some);
                let k = choose|k: int| j < k < all.len() && all[k].index() == column;
                assert(all[k].index() == column && all[j].index() == column && k != j);
                assert(!covers(all, width as nat));
            }
            return Err(EncodeError::Misplaced { column });
        }
        let ghost before = slots@;
        slots[column] = Some(chunk);
        proof {
            assert(slots@ == before.update(column as int, Some(chunk)));
            assert forall|m: int| j <= m < all.len() implies {
                &&& (#[trigger] all[m]).index() < slots@.len()
                &&& slots@[all[m].index() as int] == Some(all[m])
            } by {
                if m > j {
                    assert(before[all[m].index() as int] == Some(all[m]));
                }
            }
            assert forall|n: int| 0 <= n < slots@.len() && (#[trigger] slots@[n]) is Some implies exists|
                m: int,
            |
                j <= m < all.len() && all[m].index() == n by {
                if n == column {
                    assert(all[j].index() == n);
                } else {
                    assert(before[n] is Some);
                    let m = choose|m: int| j < m < all.len() && all[m].index() == n;
                    assert(all[m].index() == n);
                }
            }
            assert forall|m: int, n: int| j <= m < n < all.len() implies (#[trigger] all[m]).index()
                != (#[trigger] all[n]).index() by {
                if m == j && all[n].index() == column {
                    assert(before[all[n].index() as int] == Some(all[n]));
                }
            }
            assert(pending@ == all.subrange(0, j));
        }
    }
    assert(filled(slots@, all, 0));
    let ghost full = slots@;
    let mut ordered: Vec<ColumnChunk> = Vec::new();
    let mut i: usize = 0;
    while i < width
        invariant
            all == completed@,
            i <= width,
            slots@.len() == width,
            full.len() == width,
            filled(full, all, 0),
            ordered@.len() == i,
            forall|k: int| 0 <= k < i ==> full[k] == Some(#[trigger] ordered@[k]),
            forall|k: int| i <= k < width ==> slots@[k] == full[k],
        decreases width - i,
    {
        match slots[i].take() {
            Some(chunk) => {
                ordered.push(chunk);
            },
            None => {
                assert(full[i as int] is None);
                assert forall|j: int| 0 <= j < all.len() implies (#[trigger] all[j]).index()
                    != i by {
                    if all[j].index() == i {
                        assert(full[all[j].index() as int] == Some(all[j]));
                    }
                }
                assert(!carried(all, i as int));
                return Err(EncodeError::Missing { column: i });
            },
        }
        i += 1;
    }
    proof {
        assert forall|k: int| 0 <= k < ordered@.len() implies (#[trigger] ordered@[k]).index()
            == k by {
            assert(full[k] == Some(ordered@[k]));
            let j = choose|j: int| 0 <= j < all.len() && all[j].index() == k;
            assert(full[all[j].index() as int] == Some(all[j]));
        }
        assert forall|j: int| 0 <= j < all.len() implies {
            &&& (#[trigger] all[j]).index() < ordered@.len()
            &&& ordered@[all[j].index() as int] == all[j]
        } by {
            assert(full[all[j].index() as int] == Some(all[j]));
        }
        assert(covers(all, width as nat)) by {
            assert forall|n: int| 0 <= n < width implies #[trigger] carried(all, n) by {
                assert(full[n] == Some(ordered@[n]));
                let j = choose|j: int| 0 <= j < all.len() && all[j].index() == n;
                assert(all[j].index() == n);
            }
        }
    }
    Ok(ordered)
}

} // verus!

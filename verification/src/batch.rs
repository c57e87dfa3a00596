//! Row batches: one array per column, all of one length.

use crate::columnar::{array_len, array_prefix, array_rows, array_slice};
use crate::error::EncodeError;
use arrow::array::ArrayData;
use vstd::prelude::*;

verus! {

/// A columnar slice of a table. Every array has `num_rows()` elements.
#[derive(Debug)]
pub struct RowBatch {
    rows: usize,
    columns: Vec<ArrayData>,
}

/// Each array of `columns` has `rows` elements.
pub open spec fn uniform(columns: Seq<ArrayData>, rows: nat) -> bool {
    forall|i: int| 0 <= i < columns.len() ==> array_len(#[trigger] columns[i]) == rows
}

/// The row count that a list of arrays has as a batch: that of its first
/// array, and zero for an empty list.
pub open spec fn leading_rows(columns: Seq<ArrayData>) -> nat {
    if columns.len() == 0 {
        0
    } else {
        array_len(columns[0])
    }
}

/// The first `length` rows of each array.
pub open spec fn prefixes(columns: Seq<ArrayData>, length: nat) -> Seq<ArrayData> {
    Seq::new(columns.len(), |i: int| array_prefix(columns[i], length))
}

/// What a batch is: a row count and one array per column.
pub struct BatchView {
    pub rows: nat,
    pub columns: Seq<ArrayData>,
}

impl BatchView {
    /// Every array has the batch's row count.
    pub open spec fn wf(self) -> bool {
        uniform(self.columns, self.rows)
    }

    /// The first `length` rows of the batch.
    pub open spec fn prefix(self, length: nat) -> BatchView {
        BatchView { rows: length, columns: prefixes(self.columns, length) }
    }
}

/// The number of elements of an array.
pub fn array_num_rows(data: &ArrayData) -> (rows: usize)
    ensures
        rows == array_len(*data),
{
    array_rows(data)
}

impl View for RowBatch {
    type V = BatchView;

    closed spec fn view(&self) -> BatchView {
        BatchView { rows: self.rows as nat, columns: self.columns@ }
    }
}

impl RowBatch {
    /// Every array has the batch's row count, which fits a `usize`.
    pub open spec fn wf(&self) -> bool {
        self@.wf() && self@.rows <= usize::MAX
    }

    /// Makes a batch of arrays that all have the same length. The first
    /// array whose length differs from that of the first one is reported.
    pub fn try_new(columns: Vec<ArrayData>) -> (result: Result<RowBatch, EncodeError>)
        ensures
            match result {
                Ok(batch) => {
                    &&& batch.wf()
                    &&& batch@.columns == columns@
                    &&& batch@.rows == leading_rows(columns@)
                },
                Err(error) => {
                    &&& error matches EncodeError::RowCountMismatch { column, expected, found }
                    &&& 0 < column < columns@.len()
                    &&& expected == leading_rows(columns@)
                    &&& found == array_len(columns@[column as int])
                    &&& found != expected
                    &&& uniform(columns@.subrange(0, column as int), leading_rows(columns@))
                },
            },
    {
        if columns.len() == 0 {
            return Ok(RowBatch { rows: 0, columns });
        }
        let rows = array_rows(&columns[0]);
        let mut i: usize = 1;
        while i < columns.len()
            invariant
                1 <= i <= columns.len(),
                rows == array_len(columns@[0]),
                uniform(columns@.subrange(0, i as int), rows as nat),
            decreases columns.len() - i,
        {
            let found = array_rows(&columns[i]);
            if found != rows {
                return Err(EncodeError::RowCountMismatch { column: i, expected: rows, found });
            }
            assert forall|j: int| 0 <= j < i + 1 implies array_len(
                #[trigger] columns@.subrange(0, i + 1)[j],
            ) == rows by {
                if j < i {
                    assert(columns@.subrange(0, i as int)[j] == columns@[j]);
                }
            }
            i += 1;
        }
        assert(columns@.subrange(0, i as int) == columns@);
        Ok(RowBatch { rows, columns })
    }

    /// The number of rows.
    pub fn num_rows(&self) -> (rows: usize)
        ensures
            rows == self@.rows,
    {
        self.rows
    }

    /// The number of columns.
    pub fn num_columns(&self) -> (columns: usize)
        ensures
            columns == self@.columns.len(),
    {
        self.columns.len()
    }

    /// The array of one column.
    pub fn column(&self, index: usize) -> (data: &ArrayData)
        requires
            index < self@.columns.len(),
        ensures
            *data == self@.columns[index as int],
    {
        &self.columns[index]
    }

    /// The first `length` rows of the batch.
    pub fn slice(&self, length: usize) -> (part: RowBatch)
        requires
            self.wf(),
            length <= self@.rows,
        ensures
            part.wf(),
            part@ == self@.prefix(length as nat),
    {
        let mut columns: Vec<ArrayData> = Vec::new();
        let mut i: usize = 0;
        while i < self.columns.len()
            invariant
                i <= self.columns.len(),
                self.wf(),
                length <= self@.rows,
                columns@ == prefixes(self@.columns, length as nat).subrange(0, i as int),
                uniform(columns@, length as nat),
            decreases self.columns.len() - i,
        {
            let part = array_slice(&self.columns[i], length);
            columns.push(part);
            i += 1;
            assert(columns@ == prefixes(self@.columns, length as nat).subrange(0, i as int));
        }
        assert(columns@ == prefixes(self@.columns, length as nat));
        RowBatch { rows: length, columns }
    }
}

} // verus!

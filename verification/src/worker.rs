//! The worker that encodes one column, and the chunk it leaves behind.

use crate::column_type::{field_is_supported, field_supported};
use crate::columnar::{
    array_has_type, array_len, array_null_count, array_nulls, array_rows, chunk_leaves,
    close_writer, compute_field_leaves, error_text, field_is_nullable, field_leaves,
    field_nullable, leaf_of, made_for, type_matches, write_accepts, write_leaf, writer_after,
    writer_batch_size, writer_closes, writer_plain, written_leaves,
};
use crate::error::EncodeError;
use arrow::array::ArrayData;
use arrow::datatypes::Field;
use parquet::arrow::arrow_writer::{ArrowColumnChunk, ArrowColumnWriter, ArrowLeafColumn};
use std::sync::Arc;
use vstd::prelude::*;

verus! {

/// A slice can be written under `field`, as a record batch would admit it:
/// the field is of a data type that the encoder takes, the slice has the
/// field's data type, and it holds no null where the field admits none.
pub open spec fn encodable(field: Field, slice: ArrayData) -> bool {
    &&& field_supported(field)
    &&& type_matches(field, slice)
    &&& field_nullable(field) || array_nulls(slice) == 0
}

/// Every slice can be written under `field`.
pub open spec fn decomposable(field: Field, slices: Seq<ArrayData>) -> bool {
    forall|i: int| 0 <= i < slices.len() ==> #[trigger] encodable(field, slices[i])
}

/// The leaf columns of a run of slices under `field`: those of the first
/// slice, then those of the second, and so on.
pub open spec fn slices_leaves(field: Field, slices: Seq<ArrayData>) -> Seq<ArrowLeafColumn>
    decreases slices.len(),
{
    if slices.len() == 0 {
        Seq::empty()
    } else {
        slices_leaves(field, slices.drop_last()) + field_leaves(field, slices.last())
    }
}

/// The number of rows in a run of slices.
pub open spec fn slices_rows(slices: Seq<ArrayData>) -> nat
    decreases slices.len(),
{
    if slices.len() == 0 {
        0
    } else {
        slices_rows(slices.drop_last()) + array_len(slices.last())
    }
}

/// The writer accepts the leaf columns one after the other.
pub open spec fn accepts_all(writer: ArrowColumnWriter, leaves: Seq<ArrowLeafColumn>) -> bool
    decreases leaves.len(),
{
    leaves.len() == 0 || (write_accepts(writer, leaves[0]) && accepts_all(
        writer_after(writer, leaves[0]),
        leaves.skip(1),
    ))
}

/// The writer once it has accepted the leaf columns one after the other.
pub open spec fn after_all(
    writer: ArrowColumnWriter,
    leaves: Seq<ArrowLeafColumn>,
) -> ArrowColumnWriter
    decreases leaves.len(),
{
    if leaves.len() == 0 {
        writer
    } else {
        after_all(writer_after(writer, leaves[0]), leaves.skip(1))
    }
}

/// The slice can be encoded by the writer under `field`: it can be written
/// under the field, and the writer accepts each of its leaf columns in turn.
pub open spec fn slice_ok(writer: ArrowColumnWriter, field: Field, slice: ArrayData) -> bool {
    encodable(field, slice) && accepts_all(writer, field_leaves(field, slice))
}

/// The writer once it has encoded the slice.
pub open spec fn after_slice(
    writer: ArrowColumnWriter,
    field: Field,
    slice: ArrayData,
) -> ArrowColumnWriter {
    after_all(writer, field_leaves(field, slice))
}

/// The writer once it has encoded the slices one after the other, or `None`
/// where one of them cannot be encoded.
pub open spec fn drains(
    writer: ArrowColumnWriter,
    field: Field,
    slices: Seq<ArrayData>,
) -> Option<ArrowColumnWriter>
    decreases slices.len(),
{
    if slices.len() == 0 {
        Some(writer)
    } else if slice_ok(writer, field, slices[0]) {
        drains(after_slice(writer, field, slices[0]), field, slices.skip(1))
    } else {
        None
    }
}

/// The writer encodes the slices one after the other and then closes.
pub open spec fn completes(writer: ArrowColumnWriter, field: Field, slices: Seq<ArrayData>) -> bool {
    drains(writer, field, slices) matches Some(last) && writer_closes(last)
}

/// Adding a slice at the end adds its leaves and its rows at the end.
pub(crate) proof fn lemma_slices_push(field: Field, slices: Seq<ArrayData>, slice: ArrayData)
    ensures
        slices_leaves(field, slices.push(slice)) == slices_leaves(field, slices) + field_leaves(
            field,
            slice,
        ),
        slices_rows(slices.push(slice)) == slices_rows(slices) + array_len(slice),
        decomposable(field, slices) && encodable(field, slice) ==> decomposable(
            field,
            slices.push(slice),
        ),
{
    assert(slices.push(slice).drop_last() == slices);
    assert(slices.push(slice).last() == slice);
    if decomposable(field, slices) && encodable(field, slice) {
        assert forall|i: int| 0 <= i < slices.push(slice).len() implies #[trigger] encodable(
            field,
            slices.push(slice)[i],
        ) by {
            if i < slices.len() {
                assert(encodable(field, slices[i]));
            }
        }
    }
}

/// The encoded, closed output of one column's worker, tagged with the
/// column's position in the schema.
#[derive(Debug)]
pub struct ColumnChunk {
    column_index: usize,
    rows: usize,
    data: ArrowColumnChunk,
}

impl ColumnChunk {
    /// The position of the chunk's column in the schema.
    pub closed spec fn index(&self) -> usize {
        self.column_index
    }

    /// The number of rows that were encoded into the chunk.
    pub closed spec fn rows(&self) -> nat {
        self.rows as nat
    }

    /// The encoded data.
    pub closed spec fn data(&self) -> ArrowColumnChunk {
        self.data
    }

    /// The leaf columns that were written into the chunk, oldest first.
    pub open spec fn leaves(&self) -> Seq<ArrowLeafColumn> {
        chunk_leaves(self.data())
    }

    /// The position of the chunk's column in the schema.
    pub fn column_index(&self) -> (index: usize)
        ensures
            index == self.index(),
    {
        self.column_index
    }

    /// The number of rows that were encoded into the chunk.
    pub fn num_rows(&self) -> (rows: usize)
        ensures
            rows == self.rows(),
    {
        self.rows
    }

    /// Gives up the tag and the row count and returns the encoded data, to
    /// be appended to a row group.
    pub fn into_data(self) -> (data: ArrowColumnChunk)
        ensures
            data == self.data(),
    {
        self.data
    }
}

/// The worker of one column. It owns the column's writer and nothing else,
/// takes the column's slices one at a time, and writes the leaf columns of
/// each to the writer in order.
pub struct ColumnWorker {
    column_index: usize,
    field: Arc<Field>,
    writer: ArrowColumnWriter,
    supported: bool,
    nullable: bool,
    rows: usize,
    base: Ghost<Seq<ArrowLeafColumn>>,
    taken: Ghost<Seq<ArrayData>>,
}

impl ColumnWorker {
    /// The position of the worker's column in the schema.
    pub closed spec fn index(&self) -> usize {
        self.column_index
    }

    /// The field under which the column is written.
    pub closed spec fn field(&self) -> Field {
        *self.field
    }

    /// The column's writer, as it is now.
    pub closed spec fn writer(&self) -> ArrowColumnWriter {
        self.writer
    }

    /// What the writer held when the worker got it.
    pub closed spec fn base(&self) -> Seq<ArrowLeafColumn> {
        self.base@
    }

    /// The slices that the worker has encoded, oldest first.
    pub closed spec fn taken(&self) -> Seq<ArrayData> {
        self.taken@
    }

    /// The number of rows that the worker has encoded.
    pub closed spec fn rows(&self) -> nat {
        self.rows as nat
    }

    /// What the writer holds now.
    pub open spec fn log(&self) -> Seq<ArrowLeafColumn> {
        written_leaves(self.writer())
    }

    /// The writer fits the field and can make progress, it holds the leaves
    /// of the slices taken so far, in the order in which they were taken,
    /// and the row count is theirs.
    pub closed spec fn wf(&self) -> bool {
        &&& self.supported == field_supported(*self.field)
        &&& self.nullable == field_nullable(*self.field)
        &&& field_supported(*self.field) ==> made_for(self.writer, *self.field)
        &&& writer_batch_size(self.writer) != 0
        &&& writer_plain(self.writer)
        &&& decomposable(*self.field, self.taken@)
        &&& written_leaves(self.writer) == self.base@ + slices_leaves(*self.field, self.taken@)
        &&& self.rows == slices_rows(self.taken@)
    }

    /// What `wf` says, in terms of the public specification functions.
    pub proof fn lemma_wf(&self)
        requires
            self.wf(),
        ensures
            decomposable(self.field(), self.taken()),
            self.log() == self.base() + slices_leaves(self.field(), self.taken()),
            self.rows() == slices_rows(self.taken()),
            field_supported(self.field()) ==> made_for(self.writer(), self.field()),
            writer_batch_size(self.writer()) != 0,
            writer_plain(self.writer()),
    {
    }

    /// A worker for the column at `column_index` that has encoded nothing.
    ///
    /// The three conditions keep the outside writer from panicking and from
    /// running for ever: where the field is of a data type that the encoder
    /// takes, the writer has to be one that was made for the field; its
    /// write batch size must not be zero; and it has to encode values
    /// plainly, without compression. `RowGroupEncoder::column_writers` gives
    /// such writers, and `RowGroupEncoder::field_at` the field of a column.
    pub fn new(column_index: usize, field: Arc<Field>, writer: ArrowColumnWriter) -> (worker:
        ColumnWorker)
        requires
            field_supported(*field) ==> made_for(writer, *field),
            writer_batch_size(writer) != 0,
            writer_plain(writer),
        ensures
            worker.wf(),
            worker.index() == column_index,
            worker.field() == *field,
            worker.writer() == writer,
            worker.base() == written_leaves(writer),
            worker.taken() == Seq::<ArrayData>::empty(),
            worker.rows() == 0,
    {
        let ghost base = written_leaves(writer);
        let supported = field_is_supported(&field);
        let nullable = field_is_nullable(&field);
        let worker = ColumnWorker {
            column_index,
            field,
            writer,
            supported,
            nullable,
            rows: 0,
            base: Ghost(base),
            taken: Ghost(Seq::empty()),
        };
        assert(base + Seq::<ArrowLeafColumn>::empty() == base);
        worker
    }

    /// The position of the worker's column in the schema.
    pub fn column_index(&self) -> (index: usize)
        ensures
            index == self.index(),
    {
        self.column_index
    }

    /// The number of rows that the worker has encoded.
    pub fn num_rows(&self) -> (rows: usize)
        ensures
            rows == self.rows(),
    {
        self.rows
    }

    /// Encodes one slice: decomposes it into leaf columns and writes each to
    /// the column writer, in order.
    ///
    /// It succeeds exactly when the slice can be written under the column's
    /// field and the writer accepts each of its leaf columns in turn. The
    /// slice is then the newest of `taken()`. A failure names the worker's
    /// column; it is a `Leaves` error exactly when the slice cannot be
    /// written under the field, and a `Write` error when the writer refused
    /// a leaf. After a failure the worker is of no further use.
    pub fn encode_slice(&mut self, slice: &ArrayData) -> (result: Result<(), EncodeError>)
        requires
            old(self).wf(),
            old(self).rows() + array_len(*slice) <= usize::MAX,
        ensures
            final(self).index() == old(self).index(),
            final(self).field() == old(self).field(),
            final(self).base() == old(self).base(),
            result is Ok <==> slice_ok(old(self).writer(), old(self).field(), *slice),
            match result {
                Ok(()) => {
                    &&& final(self).wf()
                    &&& final(self).taken() == old(self).taken().push(*slice)
                    &&& final(self).writer() == after_slice(
                        old(self).writer(),
                        old(self).field(),
                        *slice,
                    )
                },
                Err(error) => {
                    &&& error.spec_column() == Some(old(self).index())
                    &&& error is Leaves || error is Write
                    &&& error is Leaves <==> !encodable(old(self).field(), *slice)
                },
            },
    {
        if !self.supported || !array_has_type(&self.field, slice) {
            return Err(
                EncodeError::Leaves {
                    column: self.column_index,
                    message: "the array does not have a type that the column takes".to_owned(),
                },
            );
        }
        if !self.nullable && array_null_count(slice) != 0 {
            return Err(
                EncodeError::Leaves {
                    column: self.column_index,
                    message: "the array holds nulls and the column admits none".to_owned(),
                },
            );
        }
        let leaves = compute_field_leaves(&self.field, slice).unwrap();
        let ghost first = self.writer();
        let ghost before = written_leaves(self.writer);
        assert(leaves@.skip(0) == leaves@);
        let mut i: usize = 0;
        while i < leaves.len()
            invariant
                i <= leaves.len(),
                self.column_index == old(self).column_index,
                self.field == old(self).field,
                self.rows == old(self).rows,
                self.base == old(self).base,
                self.taken == old(self).taken,
                self.supported == old(self).supported,
                self.nullable == old(self).nullable,
                made_for(self.writer, *self.field),
                writer_batch_size(self.writer) != 0,
                writer_plain(self.writer),
                encodable(*self.field, *slice),
                forall|k: int| 0 <= k < leaves@.len() ==> #[trigger] leaf_of(leaves@[k], *self.field),
                old(self).wf(),
                old(self).rows() + array_len(*slice) <= usize::MAX,
                first == old(self).writer(),
                before == written_leaves(first),
                leaves@ == field_leaves(*self.field, *slice),
                written_leaves(self.writer) == before + leaves@.subrange(0, i as int),
                accepts_all(self.writer, leaves@.skip(i as int)) == accepts_all(first, leaves@),
                after_all(self.writer, leaves@.skip(i as int)) == after_all(first, leaves@),
            decreases leaves.len() - i,
        {
            let ghost current = self.writer();
            proof {
                assert(leaves@.skip(i as int)[0] == leaves@[i as int]);
                assert(leaves@.skip(i as int).skip(1) == leaves@.skip(i + 1));
                assert(leaf_of(leaves@[i as int], *self.field));
            }
            match write_leaf(&mut self.writer, &leaves[i]) {
                Ok(()) => {},
                Err(cause) => {
                    assert(!accepts_all(current, leaves@.skip(i as int)));
                    return Err(
                        EncodeError::Write {
                            column: self.column_index,
                            message: error_text(&cause),
                        },
                    );
                },
            }
            assert(leaves@.subrange(0, i + 1) == leaves@.subrange(0, i as int).push(
                leaves@[i as int],
            ));
            i += 1;
        }
        assert(leaves@.subrange(0, i as int) == leaves@);
        assert(leaves@.skip(i as int).len() == 0);
        self.rows = self.rows + array_rows(slice);
        proof {
            lemma_slices_push(self.field(), self.taken(), *slice);
            assert((self.base@ + slices_leaves(self.field(), self.taken())) + leaves@ == self.base@
                + (slices_leaves(self.field(), self.taken()) + leaves@));
            self.taken = Ghost(self.taken@.push(*slice));
        }
        Ok(())
    }

    /// Closes the column writer and returns the column's chunk, tagged with
    /// the column's position. It succeeds exactly when the writer closes.
    /// The chunk holds everything that the writer has accepted. A failure is
    /// a `Finish` error that names the column.
    pub fn finish(self) -> (result: Result<ColumnChunk, EncodeError>)
        requires
            self.wf(),
        ensures
            result is Ok <==> writer_closes(self.writer()),
            match result {
                Ok(chunk) => {
                    &&& chunk.index() == self.index()
                    &&& chunk.rows() == self.rows()
                    &&& chunk.leaves() == self.log()
                },
                Err(error) => {
                    &&& error is Finish
                    &&& error.spec_column() == Some(self.index())
                },
            },
    {
        let column_index = self.column_index;
        let rows = self.rows;
        match close_writer(self.writer) {
            Ok(data) => Ok(ColumnChunk { column_index, rows, data }),
            Err(cause) => Err(
                EncodeError::Finish { column: column_index, message: error_text(&cause) },
            ),
        }
    }
}

} // verus!

//! What can go wrong while a row group is encoded.

use vstd::prelude::*;

verus! {

/// A failure of the row-group encoder. No failure is retried: once one is
/// reported the row group is lost.
#[derive(Debug)]
pub enum EncodeError {
    /// The schema and the list of column writers differ in length.
    SchemaMismatch { columns: usize, writers: usize },
    /// The writer properties have a write batch size of zero, with which no
    /// column writer gets anywhere.
    ZeroBatchSize,
    /// A column of the schema has a data type that the encoder does not
    /// take.
    UnsupportedColumn { column: usize },
    /// The writer properties ask for a compression or a value encoding of a
    /// column that the encoder cannot serve.
    UnservedProperties { column: usize },
    /// A batch does not hold one array per schema column.
    ColumnCountMismatch { expected: usize, found: usize },
    /// An array of a batch does not have the batch's row count.
    RowCountMismatch { column: usize, expected: usize, found: usize },
    /// A slice could not be decomposed into leaf columns.
    Leaves { column: usize, message: String },
    /// The column writer refused a leaf column.
    Write { column: usize, message: String },
    /// The column writer could not be closed.
    Finish { column: usize, message: String },
    /// A slice was submitted to a column whose worker has failed and is
    /// gone. The worker's own failure is reported when the encoder is closed.
    QueueClosed { column: usize },
    /// Two finished chunks carry the same column index, or an index beyond
    /// the last column.
    Misplaced { column: usize },
    /// No finished chunk carries this column index.
    Missing { column: usize },
}

impl EncodeError {
    /// The column that the failure belongs to, where it belongs to one.
    pub open spec fn spec_column(&self) -> Option<usize> {
        match *self {
            EncodeError::SchemaMismatch { .. } => None,
            EncodeError::ZeroBatchSize => None,
            EncodeError::UnsupportedColumn { column } => Some(column),
            EncodeError::UnservedProperties { column } => Some(column),
            EncodeError::ColumnCountMismatch { .. } => None,
            EncodeError::RowCountMismatch { column, .. } => Some(column),
            EncodeError::Leaves { column, .. } => Some(column),
            EncodeError::Write { column, .. } => Some(column),
            EncodeError::Finish { column, .. } => Some(column),
            EncodeError::QueueClosed { column } => Some(column),
            EncodeError::Misplaced { column } => Some(column),
            EncodeError::Missing { column } => Some(column),
        }
    }

    /// The column that the failure belongs to, where it belongs to one.
    #[verifier::when_used_as_spec(spec_column)]
    pub fn column(&self) -> (column: Option<usize>)
        ensures
            column == self.spec_column(),
    {
        match self {
            EncodeError::SchemaMismatch { .. } => None,
            EncodeError::ZeroBatchSize => None,
            EncodeError::UnsupportedColumn { column } => Some(*column),
            EncodeError::UnservedProperties { column } => Some(*column),
            EncodeError::ColumnCountMismatch { .. } => None,
            EncodeError::RowCountMismatch { column, .. } => Some(*column),
            EncodeError::Leaves { column, .. } => Some(*column),
            EncodeError::Write { column, .. } => Some(*column),
            EncodeError::Finish { column, .. } => Some(*column),
            EncodeError::QueueClosed { column } => Some(*column),
            EncodeError::Misplaced { column } => Some(*column),
            EncodeError::Missing { column } => Some(*column),
        }
    }
}

} // verus!

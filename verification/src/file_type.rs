//! The kinds of file that the benchmark writes.

use crate::column_type::{all_supported, BytesKind, Numeric};
use crate::columnar::{
    field_bytes, field_name, field_nullable, field_numeric, new_schema, nullable_float_field,
    nullable_text_field, schema_fields,
};
use crate::text::{decimal, decimal_text, joined};
use arrow::datatypes::{Field, Schema};
use std::sync::Arc;
use vstd::prelude::*;

verus! {

/// The type of file to create.
#[derive(Debug, Clone, Copy, PartialEq, Eq, Structural)]
pub enum FileType {
    /// Every column holds 32-bit floating-point numbers.
    Float,
    /// Every column holds UTF-8 strings.
    String,
}

/// The kind of file whose columns have the data type of the field: `Float`
/// for 32-bit floating-point numbers, `String` for text with 32-bit offsets,
/// and `None` for every other type.
pub open spec fn field_type(field: Field) -> Option<FileType> {
    if field_numeric(field) == Some(Numeric::Float32) {
        Some(FileType::Float)
    } else if field_bytes(field) == Some(BytesKind::Utf8) {
        Some(FileType::String)
    } else {
        None
    }
}

/// The name of the column at a position: `col_` and the position in decimal.
pub open spec fn column_name_text(index: nat) -> Seq<char> {
    "col_"@ + decimal_text(index)
}

/// The name of the column at a position.
pub fn column_name(index: usize) -> (name: String)
    ensures
        name@ == column_name_text(index as nat),
{
    let digits = decimal(index as u128);
    joined("col_", digits.as_str())
}

/// The seed from which the array of column `index` of a batch is generated,
/// in a file of `columns` columns and for the batch seed `seed`: the columns
/// of one batch get consecutive seeds. `None` where the number does not fit.
pub fn column_seed(seed: usize, columns: usize, index: usize) -> (result: Option<u64>)
    ensures
        match result {
            Some(value) => value == seed * columns + index,
            None => seed * columns + index > usize::MAX,
        },
{
    match seed.checked_mul(columns) {
        Some(product) => match product.checked_add(index) {
            Some(sum) => Some(sum as u64),
            None => None,
        },
        None => {
            assert(seed * columns + index > usize::MAX) by (nonlinear_arith)
                requires
                    seed * columns > usize::MAX,
                    index >= 0,
            ;
            None
        },
    }
}

impl FileType {
    /// How the file type is written in file names and reports.
    pub open spec fn label_text(self) -> Seq<char> {
        match self {
            FileType::Float => "Float32"@,
            FileType::String => "String"@,
        }
    }

    /// The variant's own name.
    pub open spec fn variant_text(self) -> Seq<char> {
        match self {
            FileType::Float => "Float"@,
            FileType::String => "String"@,
        }
    }

    /// How the file type is written in file names and reports: `Float32` or
    /// `String`.
    pub fn label(&self) -> (text: &'static str)
        ensures
            text@ == self.label_text(),
    {
        match self {
            FileType::Float => "Float32",
            FileType::String => "String",
        }
    }

    /// The variant's own name: `Float` or `String`.
    pub fn variant_name(&self) -> (text: &'static str)
        ensures
            text@ == self.variant_text(),
    {
        match self {
            FileType::Float => "Float",
            FileType::String => "String",
        }
    }

    /// The schema of a file of this type with `columns` columns: the column
    /// at position `i` is called `col_i`, is nullable and has the type of the
    /// file.
    pub fn schema(&self, columns: usize) -> (schema: Arc<Schema>)
        ensures
            schema_fields(*schema).len() == columns,
            all_supported(schema_fields(*schema)),
            forall|i: int|
                0 <= i < columns ==> {
                    &&& field_name(#[trigger] schema_fields(*schema)[i]) == column_name_text(
                        i as nat,
                    )
                    &&& field_nullable(schema_fields(*schema)[i])
                    &&& field_type(schema_fields(*schema)[i]) == Some(*self)
                },
    {
        let mut fields: Vec<Field> = Vec::new();
        let mut i: usize = 0;
        while i < columns
            invariant
                i <= columns,
                fields@.len() == i,
                forall|k: int|
                    0 <= k < i ==> {
                        &&& field_name(#[trigger] fields@[k]) == column_name_text(k as nat)
                        &&& field_nullable(fields@[k])
                        &&& field_type(fields@[k]) == Some(*self)
                        &&& crate::column_type::field_supported(fields@[k])
                    },
            decreases columns - i,
        {
            let name = column_name(i);
            let field = match self {
                FileType::Float => nullable_float_field(name),
                FileType::String => nullable_text_field(name),
            };
            fields.push(field);
            i += 1;
        }
        new_schema(fields)
    }
}

} // verus!

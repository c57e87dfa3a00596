//! Column-by-column encoding of Parquet row groups, and the bookkeeping of a
//! metadata-parsing benchmark that is run on the files so written.
//!
//! The encoder is `encoder::RowGroupEncoder`: one bounded queue and one
//! worker per column, and chunks that come out in column order. `driver`
//! feeds it a row group's worth of rows. `benchmark` finds the parts of a
//! file that a metadata decoder parses, times the parsing and reports the
//! averages.
//!
//! The modules `columnar`, `channel`, `clock`, `table` and `push_decoder`
//! hold what the crate takes on trust from `arrow`, `parquet`, `tokio`,
//! `comfy_table`, `bytes` and `std::time`, and `text` two functions of
//! `String`. `column_type` holds the rule for the columns and writer
//! properties that the encoder takes; everything else is proved from what
//! the trusted modules state.

pub mod batch;
pub mod benchmark;
pub mod channel;
pub mod clock;
pub mod column_type;
pub mod columnar;
pub mod decode;
pub mod driver;
pub mod encoder;
pub mod error;
pub mod file_type;
pub mod order;
pub mod parquet_file;
pub mod push_decoder;
pub mod queue;
pub mod table;
pub mod text;
pub mod worker;

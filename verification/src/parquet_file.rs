//! The description of a file to be written, and its builder.

use crate::file_type::FileType;
use crate::text::{decimal, decimal_text, push_text};
use std::path::PathBuf;
use vstd::prelude::*;

verus! {

#[verifier::external_type_specification]
#[verifier::external_body]
pub struct ExPathBuf(PathBuf);

/// What a builder holds: each setting, once it has been made.
pub struct BuilderView {
    pub path: Option<PathBuf>,
    pub file_type: Option<FileType>,
    pub columns: Option<usize>,
    pub row_groups: Option<usize>,
    pub rows_per_row_group: Option<usize>,
}

impl BuilderView {
    /// The name of the first setting that has not been made, in the order
    /// path, file type, columns, row groups, rows per row group.
    pub open spec fn missing(self) -> Option<Seq<char>> {
        if self.path is None {
            Some("path"@)
        } else if self.file_type is None {
            Some("file_type"@)
        } else if self.columns is None {
            Some("columns"@)
        } else if self.row_groups is None {
            Some("row_groups"@)
        } else if self.rows_per_row_group is None {
            Some("rows_per_row_group"@)
        } else {
            None
        }
    }

    /// Every setting has been made.
    pub open spec fn complete(self) -> bool {
        &&& self.path is Some
        &&& self.file_type is Some
        &&& self.columns is Some
        &&& self.row_groups is Some
        &&& self.rows_per_row_group is Some
    }

    /// The file that the settings describe.
    pub open spec fn built(self) -> FileSpecView {
        FileSpecView {
            path: self.path->Some_0,
            file_type: self.file_type->Some_0,
            columns: self.columns->Some_0,
            row_groups: self.row_groups->Some_0,
            rows_per_row_group: self.rows_per_row_group->Some_0,
        }
    }
}

/// What a file description holds.
pub struct FileSpecView {
    pub path: PathBuf,
    pub file_type: FileType,
    pub columns: usize,
    pub row_groups: usize,
    pub rows_per_row_group: usize,
}

impl FileSpecView {
    /// The one-line description of the file: a space, the file type's
    /// variant name, the number of columns followed by ` cols`, and the
    /// number of row groups followed by ` row groups`.
    pub open spec fn description(self) -> Seq<char> {
        " "@ + self.file_type.variant_text() + " "@ + decimal_text(self.columns as nat) + " cols "@
            + decimal_text(self.row_groups as nat) + " row groups"@
    }
}

/// Builder for a `ParquetFileSpec`.
#[derive(Debug)]
pub struct ParquetFileSpecBuilder {
    path: Option<PathBuf>,
    file_type: Option<FileType>,
    columns: Option<usize>,
    row_groups: Option<usize>,
    rows_per_row_group: Option<usize>,
}

impl View for ParquetFileSpecBuilder {
    type V = BuilderView;

    closed spec fn view(&self) -> BuilderView {
        BuilderView {
            path: self.path,
            file_type: self.file_type,
            columns: self.columns,
            row_groups: self.row_groups,
            rows_per_row_group: self.rows_per_row_group,
        }
    }
}

impl Default for ParquetFileSpecBuilder {
    /// A builder in which no setting has been made.
    fn default() -> (builder: ParquetFileSpecBuilder)
        ensures
            builder@ == (BuilderView {
                path: None,
                file_type: None,
                columns: None,
                row_groups: None,
                rows_per_row_group: None,
            }),
    {
        ParquetFileSpecBuilder {
            path: None,
            file_type: None,
            columns: None,
            row_groups: None,
            rows_per_row_group: None,
        }
    }
}

impl ParquetFileSpecBuilder {
    /// A builder in which no setting has been made.
    pub fn new() -> (builder: ParquetFileSpecBuilder)
        ensures
            builder@ == (BuilderView {
                path: None,
                file_type: None,
                columns: None,
                row_groups: None,
                rows_per_row_group: None,
            }),
    {
        ParquetFileSpecBuilder {
            path: None,
            file_type: None,
            columns: None,
            row_groups: None,
            rows_per_row_group: None,
        }
    }

    /// Sets the path of the file.
    pub fn with_path(self, path: PathBuf) -> (builder: ParquetFileSpecBuilder)
        ensures
            builder@ == (BuilderView { path: Some(path), ..self@ }),
    {
        let mut builder = self;
        builder.path = Some(path);
        builder
    }

    /// Sets the type of the file.
    pub fn with_file_type(self, file_type: FileType) -> (builder: ParquetFileSpecBuilder)
        ensures
            builder@ == (BuilderView { file_type: Some(file_type), ..self@ }),
    {
        let mut builder = self;
        builder.file_type = Some(file_type);
        builder
    }

    /// Sets the number of columns.
    pub fn with_columns(self, columns: usize) -> (builder: ParquetFileSpecBuilder)
        ensures
            builder@ == (BuilderView { columns: Some(columns), ..self@ }),
    {
        let mut builder = self;
        builder.columns = Some(columns);
        builder
    }

    /// Sets the number of row groups.
    pub fn with_row_groups(self, row_groups: usize) -> (builder: ParquetFileSpecBuilder)
        ensures
            builder@ == (BuilderView { row_groups: Some(row_groups), ..self@ }),
    {
        let mut builder = self;
        builder.row_groups = Some(row_groups);
        builder
    }

    /// Sets the number of rows of each row group.
    pub fn with_rows_per_row_group(self, rows_per_row_group: usize) -> (builder:
        ParquetFileSpecBuilder)
        ensures
            builder@ == (BuilderView { rows_per_row_group: Some(rows_per_row_group), ..self@ }),
    {
        let mut builder = self;
        builder.rows_per_row_group = Some(rows_per_row_group);
        builder
    }

    /// Whether every setting has been made, so that `build` can be called.
    pub fn is_complete(&self) -> (complete: bool)
        ensures
            complete == self@.complete(),
    {
        self.path.is_some() && self.file_type.is_some() && self.columns.is_some()
            && self.row_groups.is_some() && self.rows_per_row_group.is_some()
    }

    /// The name of the first setting that is still to be made, if there is
    /// one.
    pub fn missing(&self) -> (name: Option<&'static str>)
        ensures
            match name {
                Some(name) => self@.missing() == Some(name@),
                None => self@.missing() is None,
            },
            name is None <==> self@.complete(),
    {
        if self.path.is_none() {
            Some("path")
        } else if self.file_type.is_none() {
            Some("file_type")
        } else if self.columns.is_none() {
            Some("columns")
        } else if self.row_groups.is_none() {
            Some("row_groups")
        } else if self.rows_per_row_group.is_none() {
            Some("rows_per_row_group")
        } else {
            None
        }
    }

    /// The description of the file. Every setting is required.
    pub fn build(self) -> (spec: ParquetFileSpec)
        requires
            self@.complete(),
        ensures
            spec@ == self@.built(),
    {
        ParquetFileSpec {
            path: self.path.unwrap(),
            file_type: self.file_type.unwrap(),
            columns: self.columns.unwrap(),
            row_groups: self.row_groups.unwrap(),
            rows_per_row_group: self.rows_per_row_group.unwrap(),
        }
    }

    /// Like `build`, for a caller that has not checked the settings: `None`
    /// where one is missing.
    pub fn try_build(self) -> (result: Option<ParquetFileSpec>)
        ensures
            match result {
                Some(spec) => self@.complete() && spec@ == self@.built(),
                None => !self@.complete(),
            },
    {
        if self.is_complete() {
            Some(self.build())
        } else {
            None
        }
    }
}

/// The characteristics of a Parquet file to be written.
#[derive(Debug)]
pub struct ParquetFileSpec {
    path: PathBuf,
    file_type: FileType,
    columns: usize,
    row_groups: usize,
    rows_per_row_group: usize,
}

impl View for ParquetFileSpec {
    type V = FileSpecView;

    closed spec fn view(&self) -> FileSpecView {
        FileSpecView {
            path: self.path,
            file_type: self.file_type,
            columns: self.columns,
            row_groups: self.row_groups,
            rows_per_row_group: self.rows_per_row_group,
        }
    }
}

impl ParquetFileSpec {
    /// Where the file is written.
    pub fn path(&self) -> (path: &PathBuf)
        ensures
            *path == self@.path,
    {
        &self.path
    }

    /// The type of the file.
    pub fn file_type(&self) -> (file_type: FileType)
        ensures
            file_type == self@.file_type,
    {
        self.file_type
    }

    /// The number of columns.
    pub fn columns(&self) -> (columns: usize)
        ensures
            columns == self@.columns,
    {
        self.columns
    }

    /// The number of row groups.
    pub fn row_groups(&self) -> (row_groups: usize)
        ensures
            row_groups == self@.row_groups,
    {
        self.row_groups
    }

    /// The number of rows of each row group.
    pub fn rows_per_row_group(&self) -> (rows: usize)
        ensures
            rows == self@.rows_per_row_group,
    {
        self.rows_per_row_group
    }

    /// The one-line description of the file, as it appears in reports.
    pub fn description(&self) -> (text: String)
        ensures
            text@ == self@.description(),
    {
        let mut text = " ".to_owned();
        push_text(&mut text, self.file_type.variant_name());
        push_text(&mut text, " ");
        push_text(&mut text, decimal(self.columns as u128).as_str());
        push_text(&mut text, " cols ");
        push_text(&mut text, decimal(self.row_groups as u128).as_str());
        push_text(&mut text, " row groups");
        text
    }
}

} // verus!

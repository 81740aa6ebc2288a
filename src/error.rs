//! Errors reported while building path keys.
use vstd::prelude::*;

verus! {

/// Why a path key could not be built from its parts.
#[derive(Debug)]
pub enum FilePathError {
    /// The path does not lie under the location root it was given with.
    UnableToExtractMaterializedPath { location_id: i32, path: String },
    /// The path holds bytes that are not text.
    NonUtf8Path { path: String },
    /// A bare file name held a path separator.
    InvalidFilenameAndExtension(String),
}

/// A field of a stored file path record.
#[derive(Clone, Copy, Debug, PartialEq, Eq, Structural)]
pub enum RecordField {
    LocationId,
    IsDir,
    MaterializedPath,
    Name,
    Extension,
}

/// A stored record lacked one of the fields a key needs.
#[derive(Debug, PartialEq, Eq, Structural)]
pub struct MissingFieldError {
    pub field: RecordField,
}

} // verus!

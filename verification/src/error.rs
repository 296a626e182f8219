use vstd::prelude::*;

verus! {

/// The failure taxonomy of the dataset loader: every loading operation either
/// returns a complete result or exactly one of these conditions.
#[derive(Clone, Copy, Debug, PartialEq, Eq, Structural)]
pub enum DatasetError {
    /// A remote retrieval of one of the four resource files failed.
    Retrieval,
    /// The cache directory or a cache file could not be created or written.
    Filesystem,
    /// A cached file is not a well-formed gzip stream.
    Decompression,
    /// A decompressed payload does not match the record layout: too short for
    /// its header, a trailing partial record, or a label byte outside `0..=9`.
    Format,
    /// A loss reduction was handed prediction and label matrices of
    /// different shapes.
    ShapeMismatch,
}

} // verus!

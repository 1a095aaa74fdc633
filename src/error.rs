use vstd::prelude::*;

verus! {

/// The ways in which a scan can fail.
#[derive(Debug, Clone, Copy, PartialEq, Eq, Structural)]
pub enum ScanError {
    /// The path does not name a `.csv` file.
    InvalidFileType,
    /// The file could not be opened or read.
    FileOpenFailure,
    /// The pattern is empty or is not a valid regular expression.
    InvalidPattern,
    /// A row breaks the comma-separated format (unequal field counts, bad UTF-8).
    MalformedRecord,
    /// The kept rows could not be written back as comma-separated text.
    SerializationFailure,
    /// More fields than a `usize` can count.
    CountOverflow,
}

} // verus!

//! Errors of the level package format.
use vstd::prelude::*;

verus! {

/// Everything that can go wrong while reading, checking or writing a level package.
#[derive(Clone, Debug, PartialEq, Eq)]
pub enum LevelPackageError {
    /// A file system error, carried as its message.
    Io(String),
    InvalidData(String),
    UnsupportedSchema { schema: u8 },
    UnsupportedEntry { entry: String },
    UnsupportedEncoding { encoding: String },
    ChunkSizeMismatch { chunk_id: u32 },
    ChunkChecksumMismatch { chunk_id: u32 },
    ChunkHeaderMismatch { chunk_id: u32 },
    ChunkCountsMismatch { chunk_id: u32 },
    InvalidPackagePath { path: String },
    SymlinkPackageEntry { path: String },
    CoordinateOverflow { name: String },
    CoordinateOutOfRange { name: String, storage: String },
}

pub type PackageResult<T> = Result<T, LevelPackageError>;

/// `InvalidData` carrying the given message.
pub fn invalid_data(message: &str) -> (res: LevelPackageError)
    ensures
        res matches LevelPackageError::InvalidData(m) && m@ == message@,
{
    LevelPackageError::InvalidData(message.to_owned())
}

/// `InvalidData` carrying an owned message.
pub fn invalid_data_string(message: String) -> (res: LevelPackageError)
    ensures
        res matches LevelPackageError::InvalidData(m) && m@ == message@,
{
    LevelPackageError::InvalidData(message)
}

} // verus!

use vstd::prelude::*;

verus! {

/// A world-storage error.
///
/// The taxonomy is three-fold: IO failures (files that cannot be read,
/// deleted or renamed), format failures (malformed headers, truncated
/// records, unterminated strings, ids that the resolved namespace does not
/// know, a namespace version newer than this build supports), and logic
/// failures (an internal invariant observed broken, such as reading the
/// reserved none tile where it is structurally impossible).
#[derive(Clone, Copy, Debug, PartialEq, Eq, Structural)]
pub enum Error {
    CannotCreateFolder,
    CannotSaveNamespace,
    CannotReadNamespace,
    CannotReadWorldOverview,
    OutOfBoundsFileRead,
    FileStringReadError,
    IDOutOfNamespaceBounds,
    IDOutOfMetaNamespaceBounds,
    CannotDeleteFile,
    CannotRenameFile,
    CannotReadFile,
    CannotWriteToFile,
    UnterminatedStringRead,
    InvalidUTF8InString,
    FutureSerializationVersion,
    InvalidNamespaceName,
    InvalidString,
    V0Error,
    LogicError,
}

impl Error {
    /// A short human-readable description of the error.
    pub fn describe(&self) -> &'static str {
        match self {
            Self::CannotCreateFolder => "Cannot create folder.",
            Self::CannotSaveNamespace => "Cannot save namespace.",
            Self::CannotReadNamespace => "Cannot read namespace.",
            Self::CannotReadWorldOverview => "Cannot read world overview.",
            Self::OutOfBoundsFileRead => "Out of bounds file read.",
            Self::FileStringReadError => "Error reading string from file.",
            Self::IDOutOfNamespaceBounds => "ID is out of namespace bounds.",
            Self::IDOutOfMetaNamespaceBounds => "Invalid namespace ID.",
            Self::CannotDeleteFile => "Cannot delete file.",
            Self::CannotRenameFile => "Cannot rename file.",
            Self::CannotReadFile => "Cannot read file.",
            Self::CannotWriteToFile => "Cannot write to file.",
            Self::UnterminatedStringRead => "Unterminated string read.",
            Self::InvalidUTF8InString => "The string contains a invalid UTF-8 byte sequence.",
            Self::FutureSerializationVersion => "Future serialization version encountered.",
            Self::InvalidNamespaceName => "Invalid namespace name.",
            Self::InvalidString => "Invalid string.",
            Self::V0Error => "Error reading legacy format.",
            Self::LogicError => "Violated internal invariant.",
        }
    }
}

} // verus!

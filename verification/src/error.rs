//! Errors, and the guarantee that a finished write carries.

use vstd::prelude::*;

verus! {

/// What the operating system said about a failed action, as far as the
/// store's decisions depend on it.
#[derive(Clone, Copy, Debug, PartialEq, Eq, Structural)]
pub enum IoErrorKind {
    /// The file or directory does not exist.
    NotFound,
    /// The file or directory exists already.
    AlreadyExists,
    /// The process may not do this.
    PermissionDenied,
    /// Anything else.
    Other,
}

/// The step of an operation at which an action failed.
#[derive(Clone, Copy, Debug, PartialEq, Eq, Structural)]
pub enum IoStep {
    /// Creating the directory of the logs.
    CreateLogDir,
    /// Listing the directory of the logs.
    ListLogs,
    /// Creating the log file.
    CreateLog,
    /// Appending a record to the log file.
    AppendLog,
    /// Flushing the log file to stable storage.
    SyncLog,
    /// Creating the temporary file.
    CreateTemp,
    /// Writing the value to the temporary file.
    WriteTemp,
    /// Flushing the temporary file to stable storage.
    SyncTemp,
    /// Renaming the temporary file over the target.
    Rename,
    /// Flushing the directory of the target.
    SyncDir,
    /// Reading a file.
    Read,
    /// Removing a file.
    Remove,
}

/// Why a data directory is refused at start-up.
#[derive(Clone, Copy, Debug, PartialEq, Eq, Structural)]
pub enum ConfigFault {
    /// Nothing could be learnt about the path.
    Missing,
    /// The path is no directory.
    NotADirectory,
    /// The directory cannot be written to.
    ReadOnly,
}

/// How much a finished write or removal withstands.
#[derive(Clone, Copy, Debug, PartialEq, Eq, Structural)]
pub enum Durability {
    /// The change survives a loss of power: the directory entry was flushed.
    PowerLossAtomic,
    /// Readers never see a partial file, but the directory entry may not
    /// have reached stable storage.
    ReadersWriterAtomic,
}

/// Why an operation of the store failed.
#[derive(Clone, Debug, PartialEq, Eq)]
pub enum StoreError {
    /// The file of the key does not exist.
    NotFound { path: Vec<u8> },
    /// An action on `path` failed at `step`.
    IoFailure { step: IoStep, path: Vec<u8>, kind: IoErrorKind },
    /// The log holds no valid record at `offset`.
    Corrupted { offset: usize },
    /// The data directory cannot be used.
    ConfigInvalid { fault: ConfigFault },
    /// The event could not be serialised.
    EncodeFailed,
    /// No event could be read from the payload of a valid record.
    DecodeFailed,
    /// The serialised event has `len` bytes, more than a record can hold.
    PayloadTooLarge { len: usize },
}

/// A [`StoreError`] with its paths as byte sequences.
pub ghost enum StoreErrorView {
    NotFound { path: Seq<u8> },
    IoFailure { step: IoStep, path: Seq<u8>, kind: IoErrorKind },
    Corrupted { offset: usize },
    ConfigInvalid { fault: ConfigFault },
    EncodeFailed,
    DecodeFailed,
    PayloadTooLarge { len: usize },
}

impl View for StoreError {
    type V = StoreErrorView;

    open spec fn view(&self) -> StoreErrorView {
        match *self {
            StoreError::NotFound { path } => StoreErrorView::NotFound { path: path@ },
            StoreError::IoFailure { step, path, kind } => StoreErrorView::IoFailure {
                step,
                path: path@,
                kind,
            },
            StoreError::Corrupted { offset } => StoreErrorView::Corrupted { offset },
            StoreError::ConfigInvalid { fault } => StoreErrorView::ConfigInvalid { fault },
            StoreError::EncodeFailed => StoreErrorView::EncodeFailed,
            StoreError::DecodeFailed => StoreErrorView::DecodeFailed,
            StoreError::PayloadTooLarge { len } => StoreErrorView::PayloadTooLarge { len },
        }
    }
}

impl DeepView for Durability {
    type V = Durability;

    open spec fn deep_view(&self) -> Durability {
        *self
    }
}

} // verus!

//! Reading a file whole.

use vstd::prelude::*;
use crate::bytes::copy_bytes;
use crate::error::IoErrorKind;
use crate::error::IoStep;
use crate::error::StoreError;
use crate::error::StoreErrorView;
use crate::io::IoAction;
use crate::io::IoActionView;
use crate::io::IoEvent;
use crate::io::IoEventView;
use crate::io::Step;
use crate::io::StepView;

verus! {

/// A read in progress: the file is being read.
#[derive(Debug, PartialEq, Eq)]
pub struct ReadOp {
    path: Vec<u8>,
}

/// A [`ReadOp`] over byte sequences.
pub ghost struct ReadOpView {
    pub path: Seq<u8>,
}

impl View for ReadOp {
    type V = ReadOpView;

    closed spec fn view(&self) -> ReadOpView {
        ReadOpView { path: self.path@ }
    }
}

/// The error for a read or a removal of `path` that failed with `kind`: a
/// missing file is told apart from every other failure.
pub open spec fn spec_file_error(step: IoStep, path: Seq<u8>, kind: IoErrorKind) -> StoreErrorView {
    if kind == IoErrorKind::NotFound {
        StoreErrorView::NotFound { path }
    } else {
        StoreErrorView::IoFailure { step, path, kind }
    }
}

/// Computes [`spec_file_error`].
pub fn file_error(step: IoStep, path: Vec<u8>, kind: IoErrorKind) -> (out: StoreError)
    ensures
        out@ == spec_file_error(step, path@, kind),
{
    if kind == IoErrorKind::NotFound {
        StoreError::NotFound { path }
    } else {
        StoreError::IoFailure { step, path, kind }
    }
}

impl ReadOpView {
    /// What the read does on `event`: it ends with all the bytes of the
    /// file, or with the error that names the file.
    pub open spec fn step(self, event: IoEventView) -> StepView<ReadOpView, Seq<u8>> {
        match event {
            IoEventView::Failed { kind } => StepView::Failed {
                error: spec_file_error(IoStep::Read, self.path, kind),
            },
            _ => StepView::Done { value: event.bytes() },
        }
    }
}

/// The first step of reading `path`: the whole file is to be read.
pub open spec fn read_begin(path: Seq<u8>) -> StepView<ReadOpView, Seq<u8>> {
    StepView::Perform { state: ReadOpView { path }, action: IoActionView::ReadAll { path } }
}

impl ReadOp {
    /// Takes the outcome of the read and ends it.
    pub fn step(self, event: IoEvent) -> (out: Step<ReadOp, Vec<u8>>)
        ensures
            out@ == self@.step(event@),
    {
        match event {
            IoEvent::Failed { kind } => Step::Failed {
                error: file_error(IoStep::Read, self.path, kind),
            },
            other => {
                let data = other.into_bytes();
                assert(data.deep_view() =~= data@);
                Step::Done { value: data }
            },
        }
    }
}

/// Begins to read the file `path` to its end.
pub fn read(path: &[u8]) -> (out: Step<ReadOp, Vec<u8>>)
    ensures
        out@ == read_begin(path@),
{
    Step::Perform {
        state: ReadOp { path: copy_bytes(path) },
        action: IoAction::ReadAll { path: copy_bytes(path) },
    }
}

} // verus!

//! The actions that an operation asks its caller to perform, and what the
//! caller reports back.

use vstd::prelude::*;
use crate::error::IoErrorKind;
use crate::error::StoreError;
use crate::error::StoreErrorView;
use crate::wol::WriteEvent;
use crate::wol::WriteEventView;

verus! {

/// One action on the outside world. Paths and contents are byte strings.
#[derive(Clone, Debug, PartialEq, Eq)]
pub enum IoAction {
    /// Serialise `event` to its compact binary form and report the bytes.
    Encode { event: WriteEvent },
    /// Create the directory `path`.
    CreateDir { path: Vec<u8> },
    /// Create the file `path` and keep it open for appending; fail if it
    /// exists.
    CreateNew { path: Vec<u8> },
    /// Append `bytes` to the open file `path` with a single write.
    Append { path: Vec<u8>, bytes: Vec<u8> },
    /// Open `path` for reading and writing, created if absent and emptied
    /// if present.
    CreateTruncate { path: Vec<u8> },
    /// Write all of `bytes` to the open file `path`.
    WriteAll { path: Vec<u8>, bytes: Vec<u8> },
    /// Flush the contents of the open file `path` to stable storage.
    SyncFile { path: Vec<u8> },
    /// Rename `from` to `to`, replacing `to`.
    Rename { from: Vec<u8>, to: Vec<u8> },
    /// Flush the directory `path` to stable storage.
    SyncDir { path: Vec<u8> },
    /// Read the whole of the file `path` and report its bytes.
    ReadAll { path: Vec<u8> },
    /// List the directory `path` and report the names of its entries, each
    /// followed by one separator byte.
    ListDir { path: Vec<u8> },
    /// Read the event back from `payload`, the bytes that `Encode` gave
    /// for it, and report the event.
    Decode { payload: Vec<u8> },
    /// Remove the file `path`.
    Remove { path: Vec<u8> },
}

/// An [`IoAction`] over byte sequences.
pub ghost enum IoActionView {
    Encode { event: WriteEventView },
    CreateDir { path: Seq<u8> },
    CreateNew { path: Seq<u8> },
    Append { path: Seq<u8>, bytes: Seq<u8> },
    CreateTruncate { path: Seq<u8> },
    WriteAll { path: Seq<u8>, bytes: Seq<u8> },
    SyncFile { path: Seq<u8> },
    Rename { from: Seq<u8>, to: Seq<u8> },
    SyncDir { path: Seq<u8> },
    ReadAll { path: Seq<u8> },
    ListDir { path: Seq<u8> },
    Decode { payload: Seq<u8> },
    Remove { path: Seq<u8> },
}

impl View for IoAction {
    type V = IoActionView;

    open spec fn view(&self) -> IoActionView {
        match *self {
            IoAction::Encode { event } => IoActionView::Encode { event: event@ },
            IoAction::CreateDir { path } => IoActionView::CreateDir { path: path@ },
            IoAction::CreateNew { path } => IoActionView::CreateNew { path: path@ },
            IoAction::Append { path, bytes } => IoActionView::Append { path: path@, bytes: bytes@ },
            IoAction::CreateTruncate { path } => IoActionView::CreateTruncate { path: path@ },
            IoAction::WriteAll { path, bytes } => IoActionView::WriteAll {
                path: path@,
                bytes: bytes@,
            },
            IoAction::SyncFile { path } => IoActionView::SyncFile { path: path@ },
            IoAction::Rename { from, to } => IoActionView::Rename { from: from@, to: to@ },
            IoAction::SyncDir { path } => IoActionView::SyncDir { path: path@ },
            IoAction::ReadAll { path } => IoActionView::ReadAll { path: path@ },
            IoAction::ListDir { path } => IoActionView::ListDir { path: path@ },
            IoAction::Decode { payload } => IoActionView::Decode { payload: payload@ },
            IoAction::Remove { path } => IoActionView::Remove { path: path@ },
        }
    }
}

/// What became of an action. Every outcome but `Failed` is a success.
/// `data` holds the bytes that the action reports, and is empty for an
/// action that reports none.
#[derive(Clone, Debug, PartialEq, Eq)]
pub enum IoEvent {
    /// The action was performed.
    Completed { data: Vec<u8> },
    /// The payload was read back as `event`.
    Decoded { event: WriteEvent },
    /// The action failed.
    Failed { kind: IoErrorKind },
}

/// An [`IoEvent`] over byte sequences.
pub ghost enum IoEventView {
    Completed { data: Seq<u8> },
    Decoded { event: WriteEventView },
    Failed { kind: IoErrorKind },
}

impl IoEventView {
    /// The bytes that the outcome reports; none where it reports no bytes.
    pub open spec fn bytes(self) -> Seq<u8> {
        match self {
            IoEventView::Completed { data } => data,
            _ => Seq::empty(),
        }
    }
}

impl IoEvent {
    /// The bytes that the outcome reports; none where it reports no bytes.
    pub fn into_bytes(self) -> (out: Vec<u8>)
        ensures
            out@ == self@.bytes(),
    {
        match self {
            IoEvent::Completed { data } => data,
            _ => Vec::new(),
        }
    }
}

impl View for IoEvent {
    type V = IoEventView;

    open spec fn view(&self) -> IoEventView {
        match *self {
            IoEvent::Completed { data } => IoEventView::Completed { data: data@ },
            IoEvent::Decoded { event } => IoEventView::Decoded { event: event@ },
            IoEvent::Failed { kind } => IoEventView::Failed { kind },
        }
    }
}

/// Where an operation stands after an event: it asks for another action, or
/// it has ended with a value or an error.
#[derive(Debug, PartialEq, Eq)]
pub enum Step<S, T> {
    /// Perform `action` and hand its outcome to `state`.
    Perform { state: S, action: IoAction },
    /// The operation succeeded.
    Done { value: T },
    /// The operation failed.
    Failed { error: StoreError },
}

/// A [`Step`] over the views of its parts.
pub ghost enum StepView<S, T> {
    Perform { state: S, action: IoActionView },
    Done { value: T },
    Failed { error: StoreErrorView },
}

impl<S: View, T: DeepView> View for Step<S, T> {
    type V = StepView<S::V, T::V>;

    open spec fn view(&self) -> StepView<S::V, T::V> {
        match *self {
            Step::Perform { state, action } => StepView::Perform { state: state@, action: action@ },
            Step::Done { value } => StepView::Done { value: value.deep_view() },
            Step::Failed { error } => StepView::Failed { error: error@ },
        }
    }
}

/// An operation of the store, as a machine that takes the outcome of its
/// last action.
pub trait Machine: Sized {
    /// What the operation ends with.
    type Out;

    /// What the operation does on `event`.
    spec fn advance(self, event: IoEventView) -> StepView<Self, Self::Out>;
}

/// The actions that an operation asks for from `step` on, when the
/// outcomes of its actions are `events` in turn: one action more than there
/// are events, unless the operation ends before.
pub open spec fn actions_of<M: Machine>(
    step: StepView<M, M::Out>,
    events: Seq<IoEventView>,
) -> Seq<IoActionView>
    decreases events.len(),
{
    match step {
        StepView::Perform { state, action } => if events.len() == 0 {
            seq![action]
        } else {
            seq![action] + actions_of(state.advance(events[0]), events.drop_first())
        },
        _ => Seq::empty(),
    }
}

/// Where an operation stands from `step` on, once the outcomes `events`
/// have been handed to it in turn. Events behind its end are ignored.
pub open spec fn end_of<M: Machine>(
    step: StepView<M, M::Out>,
    events: Seq<IoEventView>,
) -> StepView<M, M::Out>
    decreases events.len(),
{
    match step {
        StepView::Perform { state, .. } => if events.len() == 0 {
            step
        } else {
            end_of(state.advance(events[0]), events.drop_first())
        },
        _ => step,
    }
}

/// Whether the first `n` of `events` report success.
pub open spec fn all_completed(events: Seq<IoEventView>, n: int) -> bool {
    forall|i: int| 0 <= i < n && i < events.len() ==> !(#[trigger] events[i] is Failed)
}

} // verus!

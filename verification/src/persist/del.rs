//! Removing a file.

use vstd::prelude::*;
use crate::bytes::copy_bytes;
use crate::error::Durability;
use crate::error::IoStep;
use crate::error::StoreErrorView;
use crate::io::IoAction;
use crate::io::IoActionView;
use crate::io::IoEvent;
use crate::io::IoEventView;
use crate::io::Machine;
use crate::io::Step;
use crate::io::StepView;
use crate::paths::parent_dir;
use crate::persist::fsync_parent_dir;
use crate::persist::read::file_error;
use crate::persist::read::spec_file_error;

verus! {

/// The action whose outcome a [`DeleteOp`] waits for.
#[derive(Clone, Copy, Debug, PartialEq, Eq, Structural)]
pub enum DeleteStage {
    /// The file is being removed.
    Removing,
    /// The directory of the file is being flushed.
    SyncingParent,
}

/// A removal in progress.
#[derive(Debug, PartialEq, Eq)]
pub struct DeleteOp {
    path: Vec<u8>,
    stage: DeleteStage,
}

/// A [`DeleteOp`] over byte sequences.
pub ghost struct DeleteOpView {
    pub path: Seq<u8>,
    pub stage: DeleteStage,
}

impl View for DeleteOp {
    type V = DeleteOpView;

    closed spec fn view(&self) -> DeleteOpView {
        DeleteOpView { path: self.path@, stage: self.stage }
    }
}

impl DeleteOpView {
    /// What the removal does on `event`. A file that cannot be removed ends
    /// it with an error, a missing file with [`StoreErrorView::NotFound`].
    /// A failure to flush the directory ends it with success and the lower
    /// guarantee.
    pub open spec fn step(self, event: IoEventView) -> StepView<DeleteOpView, Durability> {
        match self.stage {
            DeleteStage::Removing => match event {
                IoEventView::Failed { kind } => StepView::Failed {
                    error: spec_file_error(IoStep::Remove, self.path, kind),
                },
                _ => StepView::Perform {
                    state: DeleteOpView { path: self.path, stage: DeleteStage::SyncingParent },
                    action: IoActionView::SyncDir { path: parent_dir(self.path) },
                },
            },
            DeleteStage::SyncingParent => match event {
                IoEventView::Failed { .. } => StepView::Done {
                    value: Durability::ReadersWriterAtomic,
                },
                _ => StepView::Done {
                    value: Durability::PowerLossAtomic,
                },
            },
        }
    }
}

impl Machine for DeleteOpView {
    type Out = Durability;

    open spec fn advance(self, event: IoEventView) -> StepView<DeleteOpView, Durability> {
        self.step(event)
    }
}

/// The first step of removing `path`: the file is to be removed.
pub open spec fn delete_begin(path: Seq<u8>) -> StepView<DeleteOpView, Durability> {
    StepView::Perform {
        state: DeleteOpView { path, stage: DeleteStage::Removing },
        action: IoActionView::Remove { path },
    }
}

impl DeleteOp {
    /// A removal of `path` that waits for the file to be removed.
    pub(crate) fn waiting(path: &[u8]) -> (out: DeleteOp)
        ensures
            out@ == (DeleteOpView { path: path@, stage: DeleteStage::Removing }),
    {
        DeleteOp { path: copy_bytes(path), stage: DeleteStage::Removing }
    }

    /// Takes the outcome of the action that the removal waits for, and
    /// answers with the next action or with the end of the removal.
    pub fn step(self, event: IoEvent) -> (out: Step<DeleteOp, Durability>)
        ensures
            out@ == self@.step(event@),
    {
        match self.stage {
            DeleteStage::Removing => match event {
                IoEvent::Failed { kind } => Step::Failed {
                    error: file_error(IoStep::Remove, self.path, kind),
                },
                _ => {
                    let action = fsync_parent_dir(self.path.as_slice());
                    Step::Perform {
                        state: DeleteOp { path: self.path, stage: DeleteStage::SyncingParent },
                        action,
                    }
                },
            },
            DeleteStage::SyncingParent => match event {
                IoEvent::Failed { .. } => Step::Done { value: Durability::ReadersWriterAtomic },
                _ => Step::Done { value: Durability::PowerLossAtomic },
            },
        }
    }
}

/// Begins to remove the file `path`.
pub fn delete(path: &[u8]) -> (out: Step<DeleteOp, Durability>)
    ensures
        out@ == delete_begin(path@),
{
    Step::Perform {
        state: DeleteOp { path: copy_bytes(path), stage: DeleteStage::Removing },
        action: IoAction::Remove { path: copy_bytes(path) },
    }
}

} // verus!

//! Replacing a file atomically: the bytes go to a temporary sibling, which
//! is flushed and then renamed over the target.

use vstd::prelude::*;
use crate::bytes::copy_bytes;
use crate::error::Durability;
use crate::error::IoStep;
use crate::error::StoreError;
use crate::error::StoreErrorView;
use crate::io::IoAction;
use crate::io::IoActionView;
use crate::io::IoEvent;
use crate::io::IoEventView;
use crate::io::Machine;
use crate::io::Step;
use crate::io::StepView;
use crate::io::actions_of;
use crate::io::all_completed;
use crate::io::end_of;
use crate::paths::parent_dir;
use crate::paths::temp_path;
use crate::persist::create_temp_file;
use crate::persist::fsync_parent_dir;
use crate::persist::is_temp_of;
use crate::persist::temp_file_for;
use crate::persist::temp_suffix;

verus! {

/// The action whose outcome an [`AtomicWrite`] waits for.
#[derive(Clone, Copy, Debug, PartialEq, Eq, Structural)]
pub enum WriteStage {
    /// The temporary file is being created.
    CreatingTemp,
    /// The bytes are being written to the temporary file.
    WritingData,
    /// The temporary file is being flushed.
    SyncingData,
    /// The temporary file is being renamed over the target.
    Renaming,
    /// The directory of the target is being flushed.
    SyncingParent,
}

/// An atomic write in progress.
#[derive(Debug, PartialEq, Eq)]
pub struct AtomicWrite {
    target: Vec<u8>,
    temp: Vec<u8>,
    data: Vec<u8>,
    sync_parent: bool,
    stage: WriteStage,
}

/// An [`AtomicWrite`] over byte sequences. `data` holds the bytes until
/// they have been handed out for writing, and is empty from then on.
pub ghost struct AtomicWriteView {
    pub target: Seq<u8>,
    pub temp: Seq<u8>,
    pub data: Seq<u8>,
    pub sync_parent: bool,
    pub stage: WriteStage,
}

impl View for AtomicWrite {
    type V = AtomicWriteView;

    closed spec fn view(&self) -> AtomicWriteView {
        AtomicWriteView {
            target: self.target@,
            temp: self.temp@,
            data: self.data@,
            sync_parent: self.sync_parent,
            stage: self.stage,
        }
    }
}

impl WriteStage {
    /// The step that an error names when the action of this stage fails.
    pub open spec fn spec_io_step(self) -> IoStep {
        match self {
            WriteStage::CreatingTemp => IoStep::CreateTemp,
            WriteStage::WritingData => IoStep::WriteTemp,
            WriteStage::SyncingData => IoStep::SyncTemp,
            WriteStage::Renaming => IoStep::Rename,
            WriteStage::SyncingParent => IoStep::SyncDir,
        }
    }

    /// Computes [`WriteStage::spec_io_step`].
    pub fn io_step(self) -> (out: IoStep)
        ensures
            out == self.spec_io_step(),
    {
        match self {
            WriteStage::CreatingTemp => IoStep::CreateTemp,
            WriteStage::WritingData => IoStep::WriteTemp,
            WriteStage::SyncingData => IoStep::SyncTemp,
            WriteStage::Renaming => IoStep::Rename,
            WriteStage::SyncingParent => IoStep::SyncDir,
        }
    }
}

impl AtomicWriteView {
    /// The write moved on to `stage`, with the bytes handed out.
    pub open spec fn at(self, stage: WriteStage) -> AtomicWriteView {
        AtomicWriteView {
            target: self.target,
            temp: self.temp,
            data: Seq::empty(),
            sync_parent: self.sync_parent,
            stage,
        }
    }

    /// What the write does on `event`, the outcome of the action it waits
    /// for. A failure before or at the rename ends the write with an error
    /// that names the temporary file, and nothing further is asked for. A
    /// failure to flush the directory ends it with success and the lower
    /// guarantee.
    pub open spec fn step(self, event: IoEventView) -> StepView<AtomicWriteView, Durability> {
        match event {
            IoEventView::Failed { kind } => match self.stage {
                WriteStage::SyncingParent => StepView::Done {
                    value: Durability::ReadersWriterAtomic,
                },
                _ => StepView::Failed {
                    error: StoreErrorView::IoFailure {
                        step: self.stage.spec_io_step(),
                        path: self.temp,
                        kind,
                    },
                },
            },
            _ => match self.stage {
                WriteStage::CreatingTemp => StepView::Perform {
                    state: self.at(WriteStage::WritingData),
                    action: IoActionView::WriteAll { path: self.temp, bytes: self.data },
                },
                WriteStage::WritingData => StepView::Perform {
                    state: self.at(WriteStage::SyncingData),
                    action: IoActionView::SyncFile { path: self.temp },
                },
                WriteStage::SyncingData => StepView::Perform {
                    state: self.at(WriteStage::Renaming),
                    action: IoActionView::Rename { from: self.temp, to: self.target },
                },
                WriteStage::Renaming => if self.sync_parent {
                    StepView::Perform {
                        state: self.at(WriteStage::SyncingParent),
                        action: IoActionView::SyncDir { path: parent_dir(self.target) },
                    }
                } else {
                    StepView::Done { value: Durability::ReadersWriterAtomic }
                },
                WriteStage::SyncingParent => StepView::Done {
                    value: Durability::PowerLossAtomic,
                },
            },
        }
    }
}

impl Machine for AtomicWriteView {
    type Out = Durability;

    open spec fn advance(self, event: IoEventView) -> StepView<AtomicWriteView, Durability> {
        self.step(event)
    }
}

/// The actions of a write of `data` to `target` through `temp`, in their
/// order: create, write, flush, rename, and with `sync_parent` a flush of
/// the directory.
pub open spec fn write_script(
    target: Seq<u8>,
    temp: Seq<u8>,
    data: Seq<u8>,
    sync_parent: bool,
) -> Seq<IoActionView> {
    let to_rename = seq![
        IoActionView::CreateTruncate { path: temp },
        IoActionView::WriteAll { path: temp, bytes: data },
        IoActionView::SyncFile { path: temp },
        IoActionView::Rename { from: temp, to: target },
    ];
    if sync_parent {
        to_rename.push(IoActionView::SyncDir { path: parent_dir(target) })
    } else {
        to_rename
    }
}

/// The first step of writing `data` to `target` through the temporary file
/// with the given suffix: the temporary file is to be created.
pub open spec fn write_begin(
    target: Seq<u8>,
    data: Seq<u8>,
    suffix: Seq<u8>,
    sync_parent: bool,
) -> StepView<AtomicWriteView, Durability> {
    StepView::Perform {
        state: AtomicWriteView {
            target,
            temp: temp_path(target, suffix),
            data,
            sync_parent,
            stage: WriteStage::CreatingTemp,
        },
        action: IoActionView::CreateTruncate { path: temp_path(target, suffix) },
    }
}

/// Whether `first` is the first step of a write of `data` to `target`
/// through some temporary sibling with a valid suffix.
pub open spec fn begins_write(
    first: StepView<AtomicWriteView, Durability>,
    target: Seq<u8>,
    data: Seq<u8>,
    sync_parent: bool,
) -> bool {
    &&& first is Perform
    &&& is_temp_of(first->state.temp, target)
    &&& first == write_begin(target, data, temp_suffix(first->state.temp), sync_parent)
}

impl AtomicWrite {
    /// A write of `data` to `target` through `temp` that waits for the
    /// temporary file to be created.
    pub(crate) fn waiting(target: &[u8], temp: Vec<u8>, data: &[u8], sync_parent: bool) -> (out:
        AtomicWrite)
        ensures
            out@ == (AtomicWriteView {
                target: target@,
                temp: temp@,
                data: data@,
                sync_parent,
                stage: WriteStage::CreatingTemp,
            }),
    {
        AtomicWrite {
            target: copy_bytes(target),
            temp,
            data: copy_bytes(data),
            sync_parent,
            stage: WriteStage::CreatingTemp,
        }
    }

    fn moved(self, stage: WriteStage, action: IoAction) -> (out: Step<AtomicWrite, Durability>)
        ensures
            out@ == (StepView::<AtomicWriteView, Durability>::Perform {
                state: self@.at(stage),
                action: action@,
            }),
    {
        Step::Perform {
            state: AtomicWrite {
                target: self.target,
                temp: self.temp,
                data: Vec::new(),
                sync_parent: self.sync_parent,
                stage,
            },
            action,
        }
    }

    /// Takes the outcome of the action that the write waits for, and
    /// answers with the next action or with the end of the write.
    pub fn step(self, event: IoEvent) -> (out: Step<AtomicWrite, Durability>)
        ensures
            out@ == self@.step(event@),
    {
        match event {
            IoEvent::Failed { kind } => match self.stage {
                WriteStage::SyncingParent => Step::Done { value: Durability::ReadersWriterAtomic },
                _ => Step::Failed {
                    error: StoreError::IoFailure {
                        step: self.stage.io_step(),
                        path: self.temp,
                        kind,
                    },
                },
            },
            _ => match self.stage {
                WriteStage::CreatingTemp => {
                    let mut this = self;
                    let path = copy_bytes(this.temp.as_slice());
                    let mut bytes: Vec<u8> = Vec::new();
                    std::mem::swap(&mut bytes, &mut this.data);
                    this.moved(WriteStage::WritingData, IoAction::WriteAll { path, bytes })
                },
                WriteStage::WritingData => {
                    let path = copy_bytes(self.temp.as_slice());
                    self.moved(WriteStage::SyncingData, IoAction::SyncFile { path })
                },
                WriteStage::SyncingData => {
                    let from = copy_bytes(self.temp.as_slice());
                    let to = copy_bytes(self.target.as_slice());
                    self.moved(WriteStage::Renaming, IoAction::Rename { from, to })
                },
                WriteStage::Renaming => {
                    if self.sync_parent {
                        let action = fsync_parent_dir(self.target.as_slice());
                        self.moved(WriteStage::SyncingParent, action)
                    } else {
                        Step::Done { value: Durability::ReadersWriterAtomic }
                    }
                },
                WriteStage::SyncingParent => Step::Done { value: Durability::PowerLossAtomic },
            },
        }
    }
}

/// Begins a write of `data` to `path` through the temporary sibling with
/// the given suffix. With `sync_parent` the directory is flushed after the
/// rename.
pub fn begin_write(path: &[u8], data: &[u8], suffix: &[u8], sync_parent: bool) -> (out: Step<
    AtomicWrite,
    Durability,
>)
    ensures
        out@ == write_begin(path@, data@, suffix@, sync_parent),
{
    let (temp, action) = temp_file_for(path, suffix);
    Step::Perform { state: AtomicWrite::waiting(path, temp, data, sync_parent), action }
}

/// Begins a write of `data` to `path` that readers never see half done:
/// the bytes go to a fresh temporary sibling, which is flushed and renamed
/// over `path`. The directory is not flushed, so the result is
/// [`Durability::ReadersWriterAtomic`].
pub fn bwrite1(path: &[u8], data: &[u8]) -> (out: Step<AtomicWrite, Durability>)
    ensures
        begins_write(out@, path@, data@, false),
{
    let (temp, action) = create_temp_file(path);
    Step::Perform { state: AtomicWrite::waiting(path, temp, data, false), action }
}

/// Begins a write of `data` to `path` as [`bwrite1`] does, and has the
/// directory flushed after the rename. Where that flush succeeds the
/// result is [`Durability::PowerLossAtomic`].
pub fn bwrite2(path: &[u8], data: &[u8]) -> (out: Step<AtomicWrite, Durability>)
    ensures
        begins_write(out@, path@, data@, true),
{
    let (temp, action) = create_temp_file(path);
    Step::Perform { state: AtomicWrite::waiting(path, temp, data, true), action }
}

/// Whatever the outcomes, a write asks for the actions of its script in
/// their order and for nothing else, and for each but the first only after
/// the one before it has succeeded. So no rename is asked for unless the
/// bytes were written and flushed.
pub proof fn lemma_write_follows_script(
    target: Seq<u8>,
    data: Seq<u8>,
    suffix: Seq<u8>,
    sync_parent: bool,
    events: Seq<IoEventView>,
)
    ensures
        ({
            let script = write_script(target, temp_path(target, suffix), data, sync_parent);
            let asked = actions_of(write_begin(target, data, suffix, sync_parent), events);
            &&& 1 <= asked.len() <= script.len()
            &&& asked.len() <= events.len() + 1
            &&& asked == script.take(asked.len() as int)
            &&& all_completed(events, asked.len() - 1)
        }),
{
    reveal_with_fuel(actions_of, 6);
}

/// Whatever the outcomes, a write succeeds exactly when create, write,
/// flush and rename have all succeeded, and it is still under way exactly
/// as long as every outcome so far is a success. The guarantee is the
/// higher one exactly when the directory was to be flushed and that flush
/// succeeded too.
pub proof fn lemma_write_succeeds_exactly_when(
    target: Seq<u8>,
    data: Seq<u8>,
    suffix: Seq<u8>,
    sync_parent: bool,
    events: Seq<IoEventView>,
)
    ensures
        ({
            let actions: int = if sync_parent {
                5
            } else {
                4
            };
            let end = end_of(write_begin(target, data, suffix, sync_parent), events);
            &&& end is Done <==> events.len() >= actions && all_completed(events, 4)
            &&& end is Perform <==> events.len() < actions && all_completed(events, 4)
            &&& end is Done ==> (end->value == Durability::PowerLossAtomic <==> sync_parent
                && !(events[4] is Failed))
        }),
{
    reveal_with_fuel(end_of, 6);
}

} // verus!

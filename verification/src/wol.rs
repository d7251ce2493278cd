//! The write-ahead log: its events, and the engine that appends them as
//! records to one log file.

use vstd::prelude::*;
use crate::bytes::copy_bytes;
use crate::error::IoErrorKind;
use crate::error::IoStep;
use crate::error::StoreError;
use crate::error::StoreErrorView;
use crate::io::IoAction;
use crate::io::IoActionView;
use crate::io::IoEvent;
use crate::io::IoEventView;
use crate::io::Machine;
use crate::io::Step;
use crate::io::StepView;
use crate::paths::log_path;
use crate::paths::make_log_path;
use crate::record::MAX_PAYLOAD;
use crate::record::frame_record;
use crate::record::framed;

verus! {

/// A mutation, captured before it is applied.
#[derive(Clone, Debug, PartialEq, Eq)]
pub enum WriteEvent {
    /// The key is given the value.
    Write(String, Vec<u8>),
    /// The key is removed.
    Delete(String),
}

/// A [`WriteEvent`] over sequences.
pub ghost enum WriteEventView {
    Write(Seq<char>, Seq<u8>),
    Delete(Seq<char>),
}

impl View for WriteEvent {
    type V = WriteEventView;

    open spec fn view(&self) -> WriteEventView {
        match *self {
            WriteEvent::Write(key, value) => WriteEventView::Write(key@, value@),
            WriteEvent::Delete(key) => WriteEventView::Delete(key@),
        }
    }
}

/// The engine of one log file: it turns events into records to append.
#[derive(Clone, Debug, PartialEq, Eq)]
pub struct WOLEngine {
    log_path: Vec<u8>,
}

/// A [`WOLEngine`] over byte sequences.
pub ghost struct WOLEngineView {
    pub log_path: Seq<u8>,
}

impl View for WOLEngine {
    type V = WOLEngineView;

    closed spec fn view(&self) -> WOLEngineView {
        WOLEngineView { log_path: self.log_path@ }
    }
}

impl DeepView for WOLEngine {
    type V = WOLEngineView;

    open spec fn deep_view(&self) -> WOLEngineView {
        self@
    }
}

/// The action whose outcome an [`OpenLog`] waits for.
#[derive(Clone, Copy, Debug, PartialEq, Eq, Structural)]
pub enum OpenStage {
    /// The directory of the logs is being created.
    CreatingDir,
    /// The log file is being created.
    CreatingLog,
}

/// The start of an engine, in progress.
#[derive(Debug, PartialEq, Eq)]
pub struct OpenLog {
    directory: Vec<u8>,
    log_path: Vec<u8>,
    stage: OpenStage,
}

/// An [`OpenLog`] over byte sequences.
pub ghost struct OpenLogView {
    pub directory: Seq<u8>,
    pub log_path: Seq<u8>,
    pub stage: OpenStage,
}

impl View for OpenLog {
    type V = OpenLogView;

    closed spec fn view(&self) -> OpenLogView {
        OpenLogView { directory: self.directory@, log_path: self.log_path@, stage: self.stage }
    }
}

impl OpenLogView {
    /// What the start does on `event`. A directory that exists already is
    /// as good as one just created; any other failure to create it ends the
    /// start with an error. A log file that cannot be created, because one
    /// of that name exists or for any other reason, ends it with an error
    /// too.
    pub open spec fn step(self, event: IoEventView) -> StepView<OpenLogView, WOLEngineView> {
        match self.stage {
            OpenStage::CreatingDir => if event is Failed && event->kind
                != IoErrorKind::AlreadyExists {
                StepView::Failed {
                    error: StoreErrorView::IoFailure {
                        step: IoStep::CreateLogDir,
                        path: self.directory,
                        kind: event->kind,
                    },
                }
            } else {
                StepView::Perform {
                    state: OpenLogView {
                        directory: self.directory,
                        log_path: self.log_path,
                        stage: OpenStage::CreatingLog,
                    },
                    action: IoActionView::CreateNew { path: self.log_path },
                }
            },
            OpenStage::CreatingLog => match event {
                IoEventView::Failed { kind } => StepView::Failed {
                    error: StoreErrorView::IoFailure {
                        step: IoStep::CreateLog,
                        path: self.log_path,
                        kind,
                    },
                },
                _ => StepView::Done {
                    value: WOLEngineView { log_path: self.log_path },
                },
            },
        }
    }
}

impl Machine for OpenLogView {
    type Out = WOLEngineView;

    open spec fn advance(self, event: IoEventView) -> StepView<OpenLogView, WOLEngineView> {
        self.step(event)
    }
}

/// The first step of starting an engine in `directory` at `secs` seconds
/// since the epoch: the directory is to be created. The log file is named
/// by the seconds in decimal.
pub open spec fn open_begin(directory: Seq<u8>, secs: u64) -> StepView<OpenLogView, WOLEngineView> {
    StepView::Perform {
        state: OpenLogView {
            directory,
            log_path: log_path(directory, secs),
            stage: OpenStage::CreatingDir,
        },
        action: IoActionView::CreateDir { path: directory },
    }
}

impl OpenLog {
    /// Takes the outcome of the action that the start waits for, and
    /// answers with the next action or with the engine.
    pub fn step(self, event: IoEvent) -> (out: Step<OpenLog, WOLEngine>)
        ensures
            out@ == self@.step(event@),
    {
        match self.stage {
            OpenStage::CreatingDir => {
                match event {
                    IoEvent::Failed { kind } => {
                        if kind != IoErrorKind::AlreadyExists {
                            return Step::Failed {
                                error: StoreError::IoFailure {
                                    step: IoStep::CreateLogDir,
                                    path: self.directory,
                                    kind,
                                },
                            };
                        }
                    },
                    _ => {},
                }
                let path = copy_bytes(self.log_path.as_slice());
                Step::Perform {
                    state: OpenLog {
                        directory: self.directory,
                        log_path: self.log_path,
                        stage: OpenStage::CreatingLog,
                    },
                    action: IoAction::CreateNew { path },
                }
            },
            OpenStage::CreatingLog => match event {
                IoEvent::Failed { kind } => Step::Failed {
                    error: StoreError::IoFailure {
                        step: IoStep::CreateLog,
                        path: self.log_path,
                        kind,
                    },
                },
                _ => Step::Done {
                    value: WOLEngine { log_path: self.log_path },
                },
            },
        }
    }
}

/// The action whose outcome an [`AppendOp`] waits for.
#[derive(Clone, Copy, Debug, PartialEq, Eq, Structural)]
pub enum AppendStage {
    /// The event is being serialised.
    Encoding,
    /// The record is being appended to the log file.
    Appending,
    /// The log file is being flushed.
    Syncing,
}

/// An append to the log, in progress.
#[derive(Debug, PartialEq, Eq)]
pub struct AppendOp {
    log_path: Vec<u8>,
    stage: AppendStage,
}

/// An [`AppendOp`] over byte sequences.
pub ghost struct AppendOpView {
    pub log_path: Seq<u8>,
    pub stage: AppendStage,
}

impl View for AppendOp {
    type V = AppendOpView;

    closed spec fn view(&self) -> AppendOpView {
        AppendOpView { log_path: self.log_path@, stage: self.stage }
    }
}

impl AppendOpView {
    /// The append moved on to `stage`.
    pub open spec fn at(self, stage: AppendStage) -> AppendOpView {
        AppendOpView { log_path: self.log_path, stage }
    }

    /// What the append does on `event`. The serialised event is framed and
    /// asked to be appended in one write, unless it is too long for a
    /// record; then the log file is flushed. Every failure ends the append
    /// with an error: the mutation must then not be applied.
    pub open spec fn step(self, event: IoEventView) -> StepView<AppendOpView, ()> {
        match self.stage {
            AppendStage::Encoding => match event {
                IoEventView::Failed { .. } => StepView::Failed {
                    error: StoreErrorView::EncodeFailed,
                },
                _ => if event.bytes().len() > MAX_PAYLOAD {
                    StepView::Failed {
                        error: StoreErrorView::PayloadTooLarge {
                            len: event.bytes().len() as usize,
                        },
                    }
                } else {
                    StepView::Perform {
                        state: self.at(AppendStage::Appending),
                        action: IoActionView::Append {
                            path: self.log_path,
                            bytes: framed(event.bytes()),
                        },
                    }
                },
            },
            AppendStage::Appending => match event {
                IoEventView::Failed { kind } => StepView::Failed {
                    error: StoreErrorView::IoFailure {
                        step: IoStep::AppendLog,
                        path: self.log_path,
                        kind,
                    },
                },
                _ => StepView::Perform {
                    state: self.at(AppendStage::Syncing),
                    action: IoActionView::SyncFile { path: self.log_path },
                },
            },
            AppendStage::Syncing => match event {
                IoEventView::Failed { kind } => StepView::Failed {
                    error: StoreErrorView::IoFailure {
                        step: IoStep::SyncLog,
                        path: self.log_path,
                        kind,
                    },
                },
                _ => StepView::Done { value: () },
            },
        }
    }
}

/// The first step of appending `event` to the log at `log_path`: the event
/// is to be serialised.
pub open spec fn append_begin(log_path: Seq<u8>, event: WriteEventView) -> StepView<
    AppendOpView,
    (),
> {
    StepView::Perform {
        state: AppendOpView { log_path, stage: AppendStage::Encoding },
        action: IoActionView::Encode { event },
    }
}

impl AppendOp {
    /// Takes the outcome of the action that the append waits for, and
    /// answers with the next action or with the end of the append.
    pub fn step(self, event: IoEvent) -> (out: Step<AppendOp, ()>)
        ensures
            out@ == self@.step(event@),
    {
        match self.stage {
            AppendStage::Encoding => match event {
                IoEvent::Failed { .. } => Step::Failed { error: StoreError::EncodeFailed },
                other => match frame_record(other.into_bytes().as_slice()) {
                    Err(error) => Step::Failed { error },
                    Ok(bytes) => {
                        let path = copy_bytes(self.log_path.as_slice());
                        Step::Perform {
                            state: AppendOp {
                                log_path: self.log_path,
                                stage: AppendStage::Appending,
                            },
                            action: IoAction::Append { path, bytes },
                        }
                    },
                },
            },
            AppendStage::Appending => match event {
                IoEvent::Failed { kind } => Step::Failed {
                    error: StoreError::IoFailure {
                        step: IoStep::AppendLog,
                        path: self.log_path,
                        kind,
                    },
                },
                _ => {
                    let path = copy_bytes(self.log_path.as_slice());
                    Step::Perform {
                        state: AppendOp { log_path: self.log_path, stage: AppendStage::Syncing },
                        action: IoAction::SyncFile { path },
                    }
                },
            },
            AppendStage::Syncing => match event {
                IoEvent::Failed { kind } => Step::Failed {
                    error: StoreError::IoFailure {
                        step: IoStep::SyncLog,
                        path: self.log_path,
                        kind,
                    },
                },
                _ => Step::Done { value: () },
            },
        }
    }
}

impl WOLEngine {
    /// Begins to start an engine whose log file lies in `directory` and is
    /// named by `now_secs`, the seconds since the epoch, in decimal. The
    /// directory is created if it is missing; the start fails if a file of
    /// that name exists. The engine knows the log but not the files of the
    /// keys: the logs of earlier runs are replayed by the start of the
    /// store, [`crate::commands::CommandController::new`].
    pub fn new(directory: &[u8], now_secs: u64) -> (out: Step<OpenLog, WOLEngine>)
        ensures
            out@ == open_begin(directory@, now_secs),
    {
        Step::Perform {
            state: OpenLog {
                directory: copy_bytes(directory),
                log_path: make_log_path(directory, now_secs),
                stage: OpenStage::CreatingDir,
            },
            action: IoAction::CreateDir { path: copy_bytes(directory) },
        }
    }

    /// The engine of the log file `log_path`, which exists.
    pub(crate) fn at(log_path: Vec<u8>) -> (out: WOLEngine)
        ensures
            out@.log_path == log_path@,
    {
        WOLEngine { log_path }
    }

    /// The path of the engine's log file.
    pub fn log_path(&self) -> (out: &[u8])
        ensures
            out@ == self@.log_path,
    {
        self.log_path.as_slice()
    }

    /// Begins to append `event` to the log. The mutation may be applied
    /// only after the append has ended with success.
    pub fn write_event(&self, event: WriteEvent) -> (out: Step<AppendOp, ()>)
        ensures
            out@ == append_begin(self@.log_path, event@),
    {
        Step::Perform {
            state: AppendOp {
                log_path: copy_bytes(self.log_path.as_slice()),
                stage: AppendStage::Encoding,
            },
            action: IoAction::Encode { event },
        }
    }
}

} // verus!

//! The start of a store: the logs of earlier runs are replayed, then the
//! log of this run is created.
//!
//! The logs are read in the order of their names, which are the seconds at
//! which they were begun. Each log is validated record by record; what
//! stands behind its first corrupted record is not replayed, and the logs
//! behind it still are. Each valid record is read back as an event. Once
//! all logs are read, the last event of each key is applied again: a
//! `Write` through an atomic write, unless the file holds the value
//! already; a `Delete` through a removal, where a missing file is as good
//! as a removed one. An event that a later one of the same key supersedes
//! is not applied, so a file that agrees with the log is never touched.

use vstd::prelude::*;
use vstd::utf8::encode_utf8;
use crate::bytes::bytes_equal;
use crate::bytes::copy_bytes;
use crate::bytes::views;
use crate::commands::CommandController;
use crate::commands::CommandControllerView;
use crate::error::IoErrorKind;
use crate::error::IoStep;
use crate::error::StoreError;
use crate::error::StoreErrorView;
use crate::io::IoAction;
use crate::io::IoActionView;
use crate::io::IoEvent;
use crate::io::IoEventView;
use crate::io::Machine;
use crate::io::end_of;
use crate::io::Step;
use crate::io::StepView;
use crate::paths::find_least_above;
use crate::paths::join;
use crate::paths::join_path;
use crate::paths::key_path;
use crate::paths::least_above;
use crate::paths::listed_names;
use crate::paths::log_dir;
use crate::paths::log_path;
use crate::paths::make_key_path;
use crate::paths::make_log_dir;
use crate::paths::make_log_path;
use crate::paths::split_names;
use crate::paths::stamp_value;
use crate::paths::temp_path;
use crate::persist::del::DeleteOp;
use crate::persist::del::DeleteOpView;
use crate::persist::del::DeleteStage;
use crate::persist::temp_file_for;
use crate::persist::write::AtomicWrite;
use crate::persist::write::AtomicWriteView;
use crate::persist::write::WriteStage;
use crate::record::valid_records;
use crate::record::validate_log;
use crate::wol::WriteEvent;
use crate::wol::WriteEventView;

verus! {

/// What a [`Startup`] waits for.
#[derive(Debug, PartialEq, Eq)]
pub enum Phase {
    /// The directory of the logs is being created.
    CreatingDir,
    /// The directory of the logs is being listed.
    Listing,
    /// The log `path` is being read.
    Reading { path: Vec<u8> },
    /// The payload of a record is being read back as an event.
    Decoding,
    /// The file `path` is being read, to see whether it holds `value`.
    Checking { path: Vec<u8>, value: Vec<u8> },
    /// The value of a `Write` is being written.
    Writing { write: AtomicWrite },
    /// The file of a `Delete` is being removed.
    Removing { remove: DeleteOp },
    /// The log of this run is being created.
    CreatingLog,
}

/// A [`Phase`] over byte sequences.
pub ghost enum PhaseView {
    CreatingDir,
    Listing,
    Reading { path: Seq<u8> },
    Decoding,
    Checking { path: Seq<u8>, value: Seq<u8> },
    Writing { write: AtomicWriteView },
    Removing { remove: DeleteOpView },
    CreatingLog,
}

impl View for Phase {
    type V = PhaseView;

    open spec fn view(&self) -> PhaseView {
        match *self {
            Phase::CreatingDir => PhaseView::CreatingDir,
            Phase::Listing => PhaseView::Listing,
            Phase::Reading { path } => PhaseView::Reading { path: path@ },
            Phase::Decoding => PhaseView::Decoding,
            Phase::Checking { path, value } => PhaseView::Checking { path: path@, value: value@ },
            Phase::Writing { write } => PhaseView::Writing { write: write@ },
            Phase::Removing { remove } => PhaseView::Removing { remove: remove@ },
            Phase::CreatingLog => PhaseView::CreatingLog,
        }
    }
}

/// The start of a store, in progress.
#[derive(Debug, PartialEq, Eq)]
pub struct Startup {
    directory: Vec<u8>,
    secs: u64,
    suffix: Vec<u8>,
    names: Vec<Vec<u8>>,
    last: Option<u64>,
    payloads: Vec<Vec<u8>>,
    next: usize,
    events: Vec<WriteEvent>,
    cursor: usize,
    phase: Phase,
}

/// A [`Startup`] over byte sequences.
pub ghost struct StartupView {
    /// The data directory.
    pub directory: Seq<u8>,
    /// The seconds that name the log of this run.
    pub secs: u64,
    /// The suffix of the temporary files of the replay.
    pub suffix: Seq<u8>,
    /// The names that the listing of the logs reported.
    pub names: Seq<Seq<u8>>,
    /// The stamp of the log read last; `None` before the first.
    pub last: Option<u64>,
    /// The payloads of the valid records of the log read last.
    pub payloads: Seq<Seq<u8>>,
    /// How many of the payloads have been handed out to be read back.
    pub next: int,
    /// The events read back so far, in the order of the logs.
    pub events: Seq<WriteEventView>,
    /// How many of the events have been dealt with.
    pub cursor: int,
    pub phase: PhaseView,
}

/// The events held by `events`.
pub open spec fn event_views(events: Seq<WriteEvent>) -> Seq<WriteEventView> {
    events.map_values(|e: WriteEvent| e@)
}

/// The key of an event.
pub open spec fn key_of(event: WriteEventView) -> Seq<char> {
    match event {
        WriteEventView::Write(key, _) => key,
        WriteEventView::Delete(key) => key,
    }
}

/// Whether one of `events` from `from` on is about `key`.
pub open spec fn later_has_key(events: Seq<WriteEventView>, key: Seq<char>, from: int) -> bool
    decreases events.len() - from,
{
    0 <= from < events.len() && (key_of(events[from]) == key || later_has_key(
        events,
        key,
        from + 1,
    ))
}

/// Whether the event at `index` is superseded: a later event is about the
/// same key.
pub open spec fn superseded(events: Seq<WriteEventView>, index: int) -> bool {
    later_has_key(events, key_of(events[index]), index + 1)
}

impl View for Startup {
    type V = StartupView;

    closed spec fn view(&self) -> StartupView {
        StartupView {
            directory: self.directory@,
            secs: self.secs,
            suffix: self.suffix@,
            names: views(self.names@),
            last: self.last,
            payloads: views(self.payloads@),
            next: self.next as int,
            events: event_views(self.events@),
            cursor: self.cursor as int,
            phase: self.phase@,
        }
    }
}

impl StartupView {
    /// The directory of the logs.
    pub open spec fn logs(self) -> Seq<u8> {
        log_dir(self.directory)
    }

    /// The start moved on to `phase`.
    pub open spec fn at(self, phase: PhaseView) -> StartupView {
        StartupView {
            directory: self.directory,
            secs: self.secs,
            suffix: self.suffix,
            names: self.names,
            last: self.last,
            payloads: self.payloads,
            next: self.next,
            events: self.events,
            cursor: self.cursor,
            phase,
        }
    }

    /// The start with the listing of the logs at hand and none read yet.
    pub open spec fn listed(self, names: Seq<Seq<u8>>) -> StartupView {
        StartupView {
            directory: self.directory,
            secs: self.secs,
            suffix: self.suffix,
            names,
            last: None,
            payloads: Seq::empty(),
            next: 0,
            events: self.events,
            cursor: self.cursor,
            phase: self.phase,
        }
    }

    /// The start with the payloads of the log with the stamp `last` at
    /// hand and none replayed yet.
    pub open spec fn loaded(self, last: Option<u64>, payloads: Seq<Seq<u8>>) -> StartupView {
        StartupView {
            directory: self.directory,
            secs: self.secs,
            suffix: self.suffix,
            names: self.names,
            last,
            payloads,
            next: 0,
            events: self.events,
            cursor: self.cursor,
            phase: self.phase,
        }
    }

    /// The start with one payload more handed out.
    pub open spec fn taken(self) -> StartupView {
        StartupView {
            directory: self.directory,
            secs: self.secs,
            suffix: self.suffix,
            names: self.names,
            last: self.last,
            payloads: self.payloads,
            next: self.next + 1,
            events: self.events,
            cursor: self.cursor,
            phase: PhaseView::Decoding,
        }
    }

    /// The start with `event` behind the events read back so far.
    pub open spec fn collected(self, event: WriteEventView) -> StartupView {
        StartupView {
            directory: self.directory,
            secs: self.secs,
            suffix: self.suffix,
            names: self.names,
            last: self.last,
            payloads: self.payloads,
            next: self.next,
            events: self.events.push(event),
            cursor: self.cursor,
            phase: self.phase,
        }
    }

    /// The start with one event more dealt with.
    pub open spec fn passed(self) -> StartupView {
        StartupView {
            directory: self.directory,
            secs: self.secs,
            suffix: self.suffix,
            names: self.names,
            last: self.last,
            payloads: self.payloads,
            next: self.next,
            events: self.events,
            cursor: self.cursor + 1,
            phase: self.phase,
        }
    }

    /// What the start does once an event is dealt with: it applies the
    /// next event that no later one supersedes, or, where none is left,
    /// creates the log of this run.
    pub open spec fn next_event(self) -> StepView<StartupView, CommandControllerView>
        decreases self.events.len() - self.cursor,
    {
        if 0 <= self.cursor < self.events.len() {
            if superseded(self.events, self.cursor) {
                self.passed().next_event()
            } else {
                self.passed().replay(self.events[self.cursor])
            }
        } else {
            StepView::Perform {
                state: self.at(PhaseView::CreatingLog),
                action: IoActionView::CreateNew { path: log_path(self.logs(), self.secs) },
            }
        }
    }

    /// What the start does once a log is done with: it reads the log with
    /// the least stamp behind the last one read, or, where no log is left,
    /// begins to apply the events.
    pub open spec fn next_log(self) -> StepView<StartupView, CommandControllerView> {
        match least_above(self.names, self.last) {
            Some(i) => StepView::Perform {
                state: self.loaded(stamp_value(self.names[i]), Seq::empty()).at(
                    PhaseView::Reading { path: join(self.logs(), self.names[i]) },
                ),
                action: IoActionView::ReadAll { path: join(self.logs(), self.names[i]) },
            },
            None => self.next_event(),
        }
    }

    /// What the start does once a payload is dealt with: it has the next
    /// payload of the log read back, or, where none is left, goes on with
    /// the next log.
    pub open spec fn next_payload(self) -> StepView<StartupView, CommandControllerView> {
        if 0 <= self.next < self.payloads.len() {
            StepView::Perform {
                state: self.taken(),
                action: IoActionView::Decode { payload: self.payloads[self.next] },
            }
        } else {
            self.next_log()
        }
    }

    /// How the start begins to apply `event` again: for a `Write` it looks
    /// at the file of the key first, for a `Delete` it removes that file.
    pub open spec fn replay(self, event: WriteEventView) -> StepView<
        StartupView,
        CommandControllerView,
    > {
        match event {
            WriteEventView::Write(key, value) => {
                let path = key_path(self.directory, encode_utf8(key));
                StepView::Perform {
                    state: self.at(PhaseView::Checking { path, value }),
                    action: IoActionView::ReadAll { path },
                }
            },
            WriteEventView::Delete(key) => {
                let path = key_path(self.directory, encode_utf8(key));
                StepView::Perform {
                    state: self.at(
                        PhaseView::Removing {
                            remove: DeleteOpView { path, stage: DeleteStage::Removing },
                        },
                    ),
                    action: IoActionView::Remove { path },
                }
            },
        }
    }

    /// What the start does on `event`, the outcome of the action it waits
    /// for.
    ///
    /// * A directory of the logs that exists already is as good as one
    ///   just created.
    /// * A log that cannot be read, a payload of a valid record from which
    ///   no event can be read, and a replayed write or removal that fails
    ///   end the start with an error. The first two do so before any file
    ///   of a key is touched.
    /// * Of a log, only the records in front of the first corrupted one
    ///   are replayed.
    /// * Of the events of a key, only the last is applied.
    /// * A file that holds the value of a `Write` already is left as it
    ///   is; so is a file that a `Delete` finds missing.
    /// * A log of this run that cannot be created, because one of that
    ///   name exists or for any other reason, ends the start with an
    ///   error.
    pub open spec fn step(self, event: IoEventView) -> StepView<
        StartupView,
        CommandControllerView,
    > {
        match self.phase {
            PhaseView::CreatingDir => if event is Failed && event->kind
                != IoErrorKind::AlreadyExists {
                StepView::Failed {
                    error: StoreErrorView::IoFailure {
                        step: IoStep::CreateLogDir,
                        path: self.logs(),
                        kind: event->kind,
                    },
                }
            } else {
                StepView::Perform {
                    state: self.at(PhaseView::Listing),
                    action: IoActionView::ListDir { path: self.logs() },
                }
            },
            PhaseView::Listing => if event is Failed {
                StepView::Failed {
                    error: StoreErrorView::IoFailure {
                        step: IoStep::ListLogs,
                        path: self.logs(),
                        kind: event->kind,
                    },
                }
            } else {
                self.listed(listed_names(event.bytes())).next_log()
            },
            PhaseView::Reading { path } => if event is Failed {
                StepView::Failed {
                    error: StoreErrorView::IoFailure {
                        step: IoStep::Read,
                        path,
                        kind: event->kind,
                    },
                }
            } else {
                self.loaded(self.last, valid_records(event.bytes(), 0)).next_payload()
            },
            PhaseView::Decoding => if event is Decoded {
                self.collected(event->event).next_payload()
            } else {
                StepView::Failed { error: StoreErrorView::DecodeFailed }
            },
            PhaseView::Checking { path, value } => if event is Completed && event->data
                == value {
                self.next_event()
            } else {
                StepView::Perform {
                    state: self.at(
                        PhaseView::Writing {
                            write: AtomicWriteView {
                                target: path,
                                temp: temp_path(path, self.suffix),
                                data: value,
                                sync_parent: true,
                                stage: WriteStage::CreatingTemp,
                            },
                        },
                    ),
                    action: IoActionView::CreateTruncate { path: temp_path(path, self.suffix) },
                }
            },
            PhaseView::Writing { write } => match write.step(event) {
                StepView::Perform { state, action } => StepView::Perform {
                    state: self.at(PhaseView::Writing { write: state }),
                    action,
                },
                StepView::Done { .. } => self.next_event(),
                StepView::Failed { error } => StepView::Failed { error },
            },
            PhaseView::Removing { remove } => match remove.step(event) {
                StepView::Perform { state, action } => StepView::Perform {
                    state: self.at(PhaseView::Removing { remove: state }),
                    action,
                },
                StepView::Done { .. } => self.next_event(),
                StepView::Failed { error } => if error is NotFound {
                    self.next_event()
                } else {
                    StepView::Failed { error }
                },
            },
            PhaseView::CreatingLog => if event is Failed {
                StepView::Failed {
                    error: StoreErrorView::IoFailure {
                        step: IoStep::CreateLog,
                        path: log_path(self.logs(), self.secs),
                        kind: event->kind,
                    },
                }
            } else {
                StepView::Done {
                    value: CommandControllerView {
                        directory: self.directory,
                        log_path: log_path(self.logs(), self.secs),
                    },
                }
            },
        }
    }
}

impl Machine for StartupView {
    type Out = CommandControllerView;

    open spec fn advance(self, event: IoEventView) -> StepView<StartupView, CommandControllerView> {
        self.step(event)
    }
}

/// The first step of starting a store on `directory` at `secs` seconds
/// since the epoch, with `suffix` for the temporary files of the replay:
/// the directory `wol` below is to be created.
pub open spec fn startup_begin(directory: Seq<u8>, secs: u64, suffix: Seq<u8>) -> StepView<
    StartupView,
    CommandControllerView,
> {
    StepView::Perform {
        state: StartupView {
            directory,
            secs,
            suffix,
            names: Seq::empty(),
            last: None,
            payloads: Seq::empty(),
            next: 0,
            events: Seq::empty(),
            cursor: 0,
            phase: PhaseView::CreatingDir,
        },
        action: IoActionView::CreateDir { path: log_dir(directory) },
    }
}

/// What the start does once an event is dealt with does not depend on
/// what it waited for.
pub proof fn lemma_next_event_ignores_phase(start: StartupView, phase: PhaseView)
    ensures
        start.at(phase).next_event() == start.next_event(),
    decreases start.events.len() - start.cursor,
{
    if 0 <= start.cursor < start.events.len() {
        if superseded(start.events, start.cursor) {
            lemma_next_event_ignores_phase(start.passed(), phase);
            assert(start.at(phase).passed() == start.passed().at(phase));
        }
    }
}

/// Applying the next event keeps the directory and the seconds of the
/// start.
pub proof fn lemma_next_event_keeps_layout(start: StartupView)
    ensures
        keeps_layout(start.next_event(), start.directory, start.secs),
    decreases start.events.len() - start.cursor,
{
    if 0 <= start.cursor < start.events.len() && superseded(start.events, start.cursor) {
        lemma_next_event_keeps_layout(start.passed());
    }
}

/// Whether `step` belongs to a start on `directory` at `secs`: it is
/// under way on that directory, or has ended with the store on it whose
/// log is named by the seconds, or has failed.
pub open spec fn keeps_layout(
    step: StepView<StartupView, CommandControllerView>,
    directory: Seq<u8>,
    secs: u64,
) -> bool {
    match step {
        StepView::Perform { state, .. } => state.directory == directory && state.secs == secs,
        StepView::Done { value } => value == (CommandControllerView {
            directory,
            log_path: log_path(log_dir(directory), secs),
        }),
        StepView::Failed { .. } => true,
    }
}

/// Whatever the outcomes, a start that ends with a store ends with the
/// store on the directory it was asked for, whose log file is the one
/// named by the seconds and lies in `wol` below that directory.
pub proof fn lemma_startup_keeps_layout(
    step: StepView<StartupView, CommandControllerView>,
    directory: Seq<u8>,
    secs: u64,
    events: Seq<IoEventView>,
)
    requires
        keeps_layout(step, directory, secs),
    ensures
        keeps_layout(end_of(step, events), directory, secs),
        end_of(step, events) is Done ==> end_of(step, events)->value.wf(),
    decreases events.len(),
{
    match step {
        StepView::Perform { state, .. } => {
            if events.len() != 0 {
                let bytes = events[0].bytes();
                lemma_next_event_keeps_layout(state);
                lemma_next_event_keeps_layout(state.listed(listed_names(bytes)));
                lemma_next_event_keeps_layout(state.loaded(state.last, valid_records(bytes, 0)));
                if events[0] is Decoded {
                    lemma_next_event_keeps_layout(state.collected(events[0]->event));
                }
                lemma_startup_keeps_layout(
                    state.step(events[0]),
                    directory,
                    secs,
                    events.drop_first(),
                );
            }
        },
        _ => {},
    }
    if end_of(step, events) is Done {
        let store = end_of(step, events)->value;
        assert(store.log_path == log_path(log_dir(store.directory), secs));
    }
}

/// A copy of `event`.
pub fn copy_event(event: &WriteEvent) -> (out: WriteEvent)
    ensures
        out@ == event@,
{
    match event {
        WriteEvent::Write(key, value) => WriteEvent::Write(
            key.clone(),
            copy_bytes(value.as_slice()),
        ),
        WriteEvent::Delete(key) => WriteEvent::Delete(key.clone()),
    }
}

impl Startup {
    /// Begins the start of a store on `directory`.
    pub(crate) fn begin(directory: &[u8], secs: u64, suffix: &[u8]) -> (out: Step<
        Startup,
        CommandController,
    >)
        ensures
            out@ == startup_begin(directory@, secs, suffix@),
    {
        let names: Vec<Vec<u8>> = Vec::new();
        let payloads: Vec<Vec<u8>> = Vec::new();
        let events: Vec<WriteEvent> = Vec::new();
        assert(views(names@) == Seq::<Seq<u8>>::empty());
        assert(views(payloads@) == Seq::<Seq<u8>>::empty());
        assert(event_views(events@) == Seq::<WriteEventView>::empty());
        Step::Perform {
            state: Startup {
                directory: copy_bytes(directory),
                secs,
                suffix: copy_bytes(suffix),
                names,
                last: None,
                payloads,
                next: 0,
                events,
                cursor: 0,
                phase: Phase::CreatingDir,
            },
            action: IoAction::CreateDir { path: make_log_dir(directory) },
        }
    }

    fn moved(self, phase: Phase, action: IoAction) -> (out: Step<Startup, CommandController>)
        ensures
            out@ == (StepView::<StartupView, CommandControllerView>::Perform {
                state: self@.at(phase@),
                action: action@,
            }),
    {
        let mut this = self;
        this.phase = phase;
        Step::Perform { state: this, action }
    }

    fn next_log(self) -> (out: Step<Startup, CommandController>)
        ensures
            out@ == self@.next_log(),
    {
        let logs = make_log_dir(self.directory.as_slice());
        match find_least_above(&self.names, self.last) {
            Some((i, stamp)) => {
                let path = join_path(logs.as_slice(), self.names[i].as_slice());
                let action = IoAction::ReadAll { path: copy_bytes(path.as_slice()) };
                let mut this = self;
                assert(views(this.names@)[i as int] == this.names@[i as int]@);
                this.last = Some(stamp);
                this.payloads = Vec::new();
                this.next = 0;
                this.phase = Phase::Reading { path };
                assert(views(this.payloads@) == Seq::<Seq<u8>>::empty());
                Step::Perform { state: this, action }
            },
            None => self.next_event(),
        }
    }

    fn is_superseded(&self, index: usize) -> (out: bool)
        requires
            index < self.events@.len(),
        ensures
            out == superseded(self@.events, index as int),
    {
        let ghost events = self@.events;
        let ghost key = key_of(events[index as int]);
        let mut at: usize = self.events.len();
        let mut found = false;
        while at > index + 1
            invariant
                index < at <= self.events@.len(),
                events == event_views(self.events@),
                key == key_of(events[index as int]),
                found == later_has_key(events, key, at as int),
            decreases at,
        {
            at -= 1;
            assert(events[at as int] == self.events@[at as int]@);
            assert(events[index as int] == self.events@[index as int]@);
            let same = match (&self.events[at], &self.events[index]) {
                (WriteEvent::Write(a, _), WriteEvent::Write(b, _)) => *a == *b,
                (WriteEvent::Write(a, _), WriteEvent::Delete(b)) => *a == *b,
                (WriteEvent::Delete(a), WriteEvent::Write(b, _)) => *a == *b,
                (WriteEvent::Delete(a), WriteEvent::Delete(b)) => *a == *b,
            };
            found = same || found;
        }
        found
    }

    fn next_event(self) -> (out: Step<Startup, CommandController>)
        ensures
            out@ == self@.next_event(),
        decreases self.events@.len() - self.cursor,
    {
        if self.cursor < self.events.len() {
            let skip = self.is_superseded(self.cursor);
            let event = copy_event(&self.events[self.cursor]);
            assert(self@.events[self.cursor as int] == self.events@[self.cursor as int]@);
            let mut this = self;
            this.cursor = this.cursor + 1;
            if skip {
                this.next_event()
            } else {
                this.replay(event)
            }
        } else {
            let logs = make_log_dir(self.directory.as_slice());
            let action = IoAction::CreateNew { path: make_log_path(logs.as_slice(), self.secs) };
            self.moved(Phase::CreatingLog, action)
        }
    }

    fn next_payload(self) -> (out: Step<Startup, CommandController>)
        ensures
            out@ == self@.next_payload(),
    {
        if self.next < self.payloads.len() {
            let payload = copy_bytes(self.payloads[self.next].as_slice());
            assert(views(self.payloads@)[self.next as int] == self.payloads@[self.next as int]@);
            let mut this = self;
            this.next = this.next + 1;
            this.phase = Phase::Decoding;
            Step::Perform { state: this, action: IoAction::Decode { payload } }
        } else {
            self.next_log()
        }
    }

    fn replay(self, event: WriteEvent) -> (out: Step<Startup, CommandController>)
        ensures
            out@ == self@.replay(event@),
    {
        match event {
            WriteEvent::Write(key, value) => {
                let path = make_key_path(self.directory.as_slice(), key.as_str().as_bytes());
                let action = IoAction::ReadAll { path: copy_bytes(path.as_slice()) };
                self.moved(Phase::Checking { path, value }, action)
            },
            WriteEvent::Delete(key) => {
                let path = make_key_path(self.directory.as_slice(), key.as_str().as_bytes());
                let action = IoAction::Remove { path: copy_bytes(path.as_slice()) };
                self.moved(Phase::Removing { remove: DeleteOp::waiting(path.as_slice()) }, action)
            },
        }
    }

    /// Takes the outcome of the action that the start waits for, and
    /// answers with the next action or with the store.
    pub fn step(self, event: IoEvent) -> (out: Step<Startup, CommandController>)
        ensures
            out@ == self@.step(event@),
    {
        let mut this = self;
        let mut phase = Phase::CreatingDir;
        std::mem::swap(&mut phase, &mut this.phase);
        proof {
            assert(this@.at(phase@) == self@);
        }
        let logs = make_log_dir(this.directory.as_slice());
        match phase {
            Phase::CreatingDir => {
                match event {
                    IoEvent::Failed { kind } => {
                        if kind != IoErrorKind::AlreadyExists {
                            return Step::Failed {
                                error: StoreError::IoFailure {
                                    step: IoStep::CreateLogDir,
                                    path: logs,
                                    kind,
                                },
                            };
                        }
                    },
                    _ => {},
                }
                this.moved(Phase::Listing, IoAction::ListDir { path: logs })
            },
            Phase::Listing => match event {
                IoEvent::Failed { kind } => Step::Failed {
                    error: StoreError::IoFailure { step: IoStep::ListLogs, path: logs, kind },
                },
                other => {
                    let data = other.into_bytes();
                    this.names = split_names(data.as_slice());
                    this.last = None;
                    this.payloads = Vec::new();
                    this.next = 0;
                    this.phase = Phase::Listing;
                    assert(views(this.payloads@) == Seq::<Seq<u8>>::empty());
                    this.next_log()
                },
            },
            Phase::Reading { path } => match event {
                IoEvent::Failed { kind } => Step::Failed {
                    error: StoreError::IoFailure { step: IoStep::Read, path, kind },
                },
                other => {
                    let data = other.into_bytes();
                    let scan = validate_log(data.as_slice());
                    this.payloads = scan.records;
                    this.next = 0;
                    this.phase = Phase::Reading { path };
                    this.next_payload()
                },
            },
            Phase::Decoding => match event {
                IoEvent::Decoded { event } => {
                    this.phase = Phase::Decoding;
                    let ghost before = this.events@;
                    this.events.push(event);
                    assert(event_views(this.events@) == event_views(before).push(event@));
                    this.next_payload()
                },
                _ => Step::Failed { error: StoreError::DecodeFailed },
            },
            Phase::Checking { path, value } => {
                let same = match &event {
                    IoEvent::Completed { data } => bytes_equal(data.as_slice(), value.as_slice()),
                    _ => false,
                };
                if same {
                    this.phase = Phase::Checking { path, value };
                    this.next_event()
                } else {
                    let (temp, action) = temp_file_for(path.as_slice(), this.suffix.as_slice());
                    let write = AtomicWrite::waiting(path.as_slice(), temp, value.as_slice(), true);
                    this.moved(Phase::Writing { write }, action)
                }
            },
            Phase::Writing { write } => match write.step(event) {
                Step::Perform { state, action } => this.moved(
                    Phase::Writing { write: state },
                    action,
                ),
                Step::Done { .. } => {
                    proof {
                        lemma_next_event_ignores_phase(this@, self@.phase);
                    }
                    this.next_event()
                },
                Step::Failed { error } => Step::Failed { error },
            },
            Phase::Removing { remove } => match remove.step(event) {
                Step::Perform { state, action } => this.moved(
                    Phase::Removing { remove: state },
                    action,
                ),
                Step::Done { .. } => {
                    proof {
                        lemma_next_event_ignores_phase(this@, self@.phase);
                    }
                    this.next_event()
                },
                Step::Failed { error } => match error {
                    StoreError::NotFound { .. } => {
                        proof {
                            lemma_next_event_ignores_phase(this@, self@.phase);
                        }
                        this.next_event()
                    },
                    other => Step::Failed { error: other },
                },
            },
            Phase::CreatingLog => match event {
                IoEvent::Failed { kind } => Step::Failed {
                    error: StoreError::IoFailure {
                        step: IoStep::CreateLog,
                        path: make_log_path(logs.as_slice(), this.secs),
                        kind,
                    },
                },
                _ => Step::Done {
                    value: CommandController::assemble(
                        this.directory,
                        make_log_path(logs.as_slice(), this.secs),
                    ),
                },
            },
        }
    }
}

} // verus!

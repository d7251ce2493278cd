//! The store: set, get and delete on keys, with the log written before the
//! data.

use vstd::prelude::*;
use vstd::utf8::encode_utf8;
use crate::bytes::copy_bytes;
use crate::error::Durability;
use crate::error::StoreError;
use crate::io::IoAction;
use crate::io::IoActionView;
use crate::io::IoEvent;
use crate::io::IoEventView;
use crate::io::Machine;
use crate::io::Step;
use crate::io::StepView;
use crate::io::actions_of;
use crate::io::all_completed;
use crate::io::end_of;
use crate::paths::SEPARATOR;
use crate::paths::decimal;
use crate::paths::is_plain;
use crate::paths::join;
use crate::paths::key_path;
use crate::paths::lemma_join_is_injective;
use crate::paths::lemma_name_start_of_join;
use crate::paths::lemma_stem_end_bounds;
use crate::paths::log_dir;
use crate::paths::log_path;
use crate::paths::make_key_path;
use crate::paths::parent_dir;
use crate::paths::temp_path;
use crate::persist::create_temp_file;
use crate::persist::is_temp_of;
use crate::persist::fresh_suffix;
use crate::persist::valid_suffix;
use crate::startup::Startup;
use crate::startup::StartupView;
use crate::startup::startup_begin;
use crate::persist::temp_file_for;
use crate::persist::temp_suffix;
use crate::persist::del::DeleteOp;
use crate::persist::del::DeleteOpView;
use crate::persist::del::delete_begin;
use crate::persist::read::ReadOp;
use crate::persist::read::ReadOpView;
use crate::persist::read::read;
use crate::persist::read::read_begin;
use crate::persist::write::AtomicWrite;
use crate::persist::write::AtomicWriteView;
use crate::persist::write::write_begin;
use crate::persist::write::write_script;
use crate::record::MAX_PAYLOAD;
use crate::record::framed;
use crate::wol::AppendOp;
use crate::wol::AppendOpView;
use crate::wol::WOLEngine;
use crate::wol::WriteEvent;
use crate::wol::WriteEventView;
use crate::wol::append_begin;

verus! {

/// The store over one data directory.
#[derive(Clone, Debug, PartialEq, Eq)]
pub struct CommandController {
    directory: Vec<u8>,
    wol: WOLEngine,
}

/// A [`CommandController`] over byte sequences.
pub ghost struct CommandControllerView {
    pub directory: Seq<u8>,
    pub log_path: Seq<u8>,
}

impl View for CommandController {
    type V = CommandControllerView;

    closed spec fn view(&self) -> CommandControllerView {
        CommandControllerView { directory: self.directory@, log_path: self.wol@.log_path }
    }
}

impl DeepView for CommandController {
    type V = CommandControllerView;

    open spec fn deep_view(&self) -> CommandControllerView {
        self@
    }
}

impl CommandControllerView {
    /// The file that holds the value of `key`.
    pub open spec fn path_of(self, key: Seq<char>) -> Seq<u8> {
        key_path(self.directory, encode_utf8(key))
    }

    /// Whether the log file lies where a store keeps it: in the directory
    /// `wol` below the data directory, under a number in decimal.
    pub open spec fn wf(self) -> bool {
        exists|secs: u64| self.log_path == #[trigger] log_path(log_dir(self.directory), secs)
    }
}

/// No two keys share a file.
pub proof fn lemma_one_file_per_key(store: CommandControllerView, a: Seq<char>, b: Seq<char>)
    requires
        store.path_of(a) == store.path_of(b),
    ensures
        a == b,
{
    lemma_join_is_injective(store.directory, encode_utf8(a), encode_utf8(b));
    vstd::utf8::encode_utf8_decode_utf8(a);
    vstd::utf8::encode_utf8_decode_utf8(b);
}

/// A key without a separator has a file and temporary files that are not
/// the log file of a well-formed store.
pub proof fn lemma_plain_key_avoids_the_log(
    store: CommandControllerView,
    key: Seq<char>,
    suffix: Seq<u8>,
)
    requires
        store.wf(),
        is_plain(encode_utf8(key)),
        is_plain(suffix),
    ensures
        store.path_of(key) != store.log_path,
        temp_path(store.path_of(key), suffix) != store.log_path,
{
    let secs = choose|secs: u64|
        store.log_path == #[trigger] log_path(log_dir(store.directory), secs);
    let target = store.path_of(key);
    // Behind the data directory, the log path goes on with `wol` and a
    // separator; the file of the key and its temporary sibling hold none.
    let front = join(store.directory, Seq::empty());
    assert(store.log_path[front.len() as int + 3] == SEPARATOR);
    if temp_path(target, suffix) == store.log_path {
        lemma_name_start_of_join(store.directory, encode_utf8(key));
        lemma_stem_end_bounds(target);
    }
}

/// A `set` in progress: the event is logged first, then the value is
/// written.
#[derive(Debug, PartialEq, Eq)]
pub enum SetOp {
    /// The event is being appended to the log. `write` and `create` are
    /// the write of the value, ready to begin.
    Logging { append: AppendOp, write: AtomicWrite, create: IoAction },
    /// The value is being written.
    Writing { write: AtomicWrite },
}

/// A [`SetOp`] over byte sequences.
pub ghost enum SetOpView {
    Logging { append: AppendOpView, write: AtomicWriteView, create: IoActionView },
    Writing { write: AtomicWriteView },
}

impl View for SetOp {
    type V = SetOpView;

    open spec fn view(&self) -> SetOpView {
        match *self {
            SetOp::Logging { append, write, create } => SetOpView::Logging {
                append: append@,
                write: write@,
                create: create@,
            },
            SetOp::Writing { write } => SetOpView::Writing { write: write@ },
        }
    }
}

impl SetOpView {
    /// The `set`, given where the write of its value stands.
    pub open spec fn lift_write(inner: StepView<AtomicWriteView, Durability>) -> StepView<
        SetOpView,
        Durability,
    > {
        match inner {
            StepView::Perform { state, action } => StepView::Perform {
                state: SetOpView::Writing { write: state },
                action,
            },
            StepView::Done { value } => StepView::Done { value },
            StepView::Failed { error } => StepView::Failed { error },
        }
    }

    /// The `set`, given where the append of its event stands. Only an
    /// append that has ended with success lets the write begin; a failed
    /// append ends the `set` before any action on the file of the key.
    pub open spec fn lift_append(
        inner: StepView<AppendOpView, ()>,
        write: AtomicWriteView,
        create: IoActionView,
    ) -> StepView<SetOpView, Durability> {
        match inner {
            StepView::Perform { state, action } => StepView::Perform {
                state: SetOpView::Logging { append: state, write, create },
                action,
            },
            StepView::Done { .. } => StepView::Perform {
                state: SetOpView::Writing { write },
                action: create,
            },
            StepView::Failed { error } => StepView::Failed { error },
        }
    }

    /// What the `set` does on `event`.
    pub open spec fn step(self, event: IoEventView) -> StepView<SetOpView, Durability> {
        match self {
            SetOpView::Logging { append, write, create } => SetOpView::lift_append(
                append.step(event),
                write,
                create,
            ),
            SetOpView::Writing { write } => SetOpView::lift_write(write.step(event)),
        }
    }
}

impl Machine for SetOpView {
    type Out = Durability;

    open spec fn advance(self, event: IoEventView) -> StepView<SetOpView, Durability> {
        self.step(event)
    }
}

/// The actions of setting `key` to `value`, in their order, where the
/// event serialises to `payload`: the event is serialised, its record
/// appended to the log and the log flushed; then come the actions of the
/// write to the file of the key.
pub open spec fn set_script(
    store: CommandControllerView,
    key: Seq<char>,
    value: Seq<u8>,
    suffix: Seq<u8>,
    payload: Seq<u8>,
) -> Seq<IoActionView> {
    let target = store.path_of(key);
    seq![
        IoActionView::Encode { event: WriteEventView::Write(key, value) },
        IoActionView::Append { path: store.log_path, bytes: framed(payload) },
        IoActionView::SyncFile { path: store.log_path },
    ] + write_script(target, temp_path(target, suffix), value, true)
}

/// The first step of setting `key` to `value` through the temporary file
/// with the given suffix: the event `Write(key, value)` is to be serialised
/// for the log. The write to the file of the key, with a flush of the
/// directory, waits for the append.
pub open spec fn set_begin(
    store: CommandControllerView,
    key: Seq<char>,
    value: Seq<u8>,
    suffix: Seq<u8>,
) -> StepView<SetOpView, Durability> {
    let first = write_begin(store.path_of(key), value, suffix, true);
    SetOpView::lift_append(
        append_begin(store.log_path, WriteEventView::Write(key, value)),
        first->state,
        first->action,
    )
}

/// Whether `first` is the first step of setting `key` to `value` through
/// some temporary sibling with a valid suffix.
pub open spec fn begins_set(
    first: StepView<SetOpView, Durability>,
    store: CommandControllerView,
    key: Seq<char>,
    value: Seq<u8>,
) -> bool {
    &&& first is Perform
    &&& first->state is Logging
    &&& is_temp_of(first->state->Logging_write.temp, store.path_of(key))
    &&& first == set_begin(store, key, value, temp_suffix(first->state->Logging_write.temp))
}

impl SetOp {
    fn lift_write(inner: Step<AtomicWrite, Durability>) -> (out: Step<SetOp, Durability>)
        ensures
            out@ == SetOpView::lift_write(inner@),
    {
        match inner {
            Step::Perform { state, action } => Step::Perform {
                state: SetOp::Writing { write: state },
                action,
            },
            Step::Done { value } => Step::Done { value },
            Step::Failed { error } => Step::Failed { error },
        }
    }

    fn lift_append(inner: Step<AppendOp, ()>, write: AtomicWrite, create: IoAction) -> (out: Step<
        SetOp,
        Durability,
    >)
        ensures
            out@ == SetOpView::lift_append(inner@, write@, create@),
    {
        match inner {
            Step::Perform { state, action } => Step::Perform {
                state: SetOp::Logging { append: state, write, create },
                action,
            },
            Step::Done { .. } => Step::Perform { state: SetOp::Writing { write }, action: create },
            Step::Failed { error } => Step::Failed { error },
        }
    }

    /// Takes the outcome of the action that the `set` waits for, and
    /// answers with the next action or with the end of the `set`.
    pub fn step(self, event: IoEvent) -> (out: Step<SetOp, Durability>)
        ensures
            out@ == self@.step(event@),
    {
        match self {
            SetOp::Logging { append, write, create } => SetOp::lift_append(
                append.step(event),
                write,
                create,
            ),
            SetOp::Writing { write } => SetOp::lift_write(write.step(event)),
        }
    }
}

/// A `delete` in progress: the event is logged first, then the file is
/// removed.
#[derive(Debug, PartialEq, Eq)]
pub enum RemoveOp {
    /// The event is being appended to the log. `remove` and `first` are
    /// the removal of the file, ready to begin.
    Logging { append: AppendOp, remove: DeleteOp, first: IoAction },
    /// The file is being removed.
    Removing { remove: DeleteOp },
}

/// A [`RemoveOp`] over byte sequences.
pub ghost enum RemoveOpView {
    Logging { append: AppendOpView, remove: DeleteOpView, first: IoActionView },
    Removing { remove: DeleteOpView },
}

impl View for RemoveOp {
    type V = RemoveOpView;

    open spec fn view(&self) -> RemoveOpView {
        match *self {
            RemoveOp::Logging { append, remove, first } => RemoveOpView::Logging {
                append: append@,
                remove: remove@,
                first: first@,
            },
            RemoveOp::Removing { remove } => RemoveOpView::Removing { remove: remove@ },
        }
    }
}

impl RemoveOpView {
    /// The `delete`, given where the removal of the file stands.
    pub open spec fn lift_remove(inner: StepView<DeleteOpView, Durability>) -> StepView<
        RemoveOpView,
        Durability,
    > {
        match inner {
            StepView::Perform { state, action } => StepView::Perform {
                state: RemoveOpView::Removing { remove: state },
                action,
            },
            StepView::Done { value } => StepView::Done { value },
            StepView::Failed { error } => StepView::Failed { error },
        }
    }

    /// The `delete`, given where the append of its event stands. Only an
    /// append that has ended with success lets the removal begin; a failed
    /// append ends the `delete` before any action on the file of the key.
    pub open spec fn lift_append(
        inner: StepView<AppendOpView, ()>,
        remove: DeleteOpView,
        first: IoActionView,
    ) -> StepView<RemoveOpView, Durability> {
        match inner {
            StepView::Perform { state, action } => StepView::Perform {
                state: RemoveOpView::Logging { append: state, remove, first },
                action,
            },
            StepView::Done { .. } => StepView::Perform {
                state: RemoveOpView::Removing { remove },
                action: first,
            },
            StepView::Failed { error } => StepView::Failed { error },
        }
    }

    /// What the `delete` does on `event`.
    pub open spec fn step(self, event: IoEventView) -> StepView<RemoveOpView, Durability> {
        match self {
            RemoveOpView::Logging { append, remove, first } => RemoveOpView::lift_append(
                append.step(event),
                remove,
                first,
            ),
            RemoveOpView::Removing { remove } => RemoveOpView::lift_remove(remove.step(event)),
        }
    }
}

impl Machine for RemoveOpView {
    type Out = Durability;

    open spec fn advance(self, event: IoEventView) -> StepView<RemoveOpView, Durability> {
        self.step(event)
    }
}

/// The first step of deleting `key`: the event `Delete(key)` is to be
/// serialised for the log. The removal of the file of the key waits for
/// the append.
pub open spec fn remove_begin(store: CommandControllerView, key: Seq<char>) -> StepView<
    RemoveOpView,
    Durability,
> {
    let first = delete_begin(store.path_of(key));
    RemoveOpView::lift_append(
        append_begin(store.log_path, WriteEventView::Delete(key)),
        first->state,
        first->action,
    )
}

/// The actions of deleting `key`, in their order, where the event
/// serialises to `payload`: the event is serialised, its record appended
/// to the log and the log flushed; then the file is removed and its
/// directory flushed.
pub open spec fn remove_script(
    store: CommandControllerView,
    key: Seq<char>,
    payload: Seq<u8>,
) -> Seq<IoActionView> {
    let target = store.path_of(key);
    seq![
        IoActionView::Encode { event: WriteEventView::Delete(key) },
        IoActionView::Append { path: store.log_path, bytes: framed(payload) },
        IoActionView::SyncFile { path: store.log_path },
        IoActionView::Remove { path: target },
        IoActionView::SyncDir { path: parent_dir(target) },
    ]
}

impl RemoveOp {
    fn lift_remove(inner: Step<DeleteOp, Durability>) -> (out: Step<RemoveOp, Durability>)
        ensures
            out@ == RemoveOpView::lift_remove(inner@),
    {
        match inner {
            Step::Perform { state, action } => Step::Perform {
                state: RemoveOp::Removing { remove: state },
                action,
            },
            Step::Done { value } => Step::Done { value },
            Step::Failed { error } => Step::Failed { error },
        }
    }

    fn lift_append(inner: Step<AppendOp, ()>, remove: DeleteOp, first: IoAction) -> (out: Step<
        RemoveOp,
        Durability,
    >)
        ensures
            out@ == RemoveOpView::lift_append(inner@, remove@, first@),
    {
        match inner {
            Step::Perform { state, action } => Step::Perform {
                state: RemoveOp::Logging { append: state, remove, first },
                action,
            },
            Step::Done { .. } => Step::Perform {
                state: RemoveOp::Removing { remove },
                action: first,
            },
            Step::Failed { error } => Step::Failed { error },
        }
    }

    /// Takes the outcome of the action that the `delete` waits for, and
    /// answers with the next action or with the end of the `delete`.
    pub fn step(self, event: IoEvent) -> (out: Step<RemoveOp, Durability>)
        ensures
            out@ == self@.step(event@),
    {
        match self {
            RemoveOp::Logging { append, remove, first } => RemoveOp::lift_append(
                append.step(event),
                remove,
                first,
            ),
            RemoveOp::Removing { remove } => RemoveOp::lift_remove(remove.step(event)),
        }
    }
}

/// Whatever the outcomes, a `delete` asks for the actions of its script in
/// their order and for nothing else, and for each but the first only after
/// the one before it has succeeded. So the file of the key is removed only
/// after the record of the event was appended to the log and the log was
/// flushed.
pub proof fn lemma_delete_follows_script(
    store: CommandControllerView,
    key: Seq<char>,
    events: Seq<IoEventView>,
)
    ensures
        ({
            let payload = first_payload(events);
            let script = remove_script(store, key, payload);
            let asked = actions_of(remove_begin(store, key), events);
            &&& 1 <= asked.len() <= script.len()
            &&& asked.len() <= events.len() + 1
            &&& asked == script.take(asked.len() as int)
            &&& all_completed(events, asked.len() - 1)
            &&& asked.len() > 1 ==> payload.len() <= MAX_PAYLOAD
        }),
{
    reveal_with_fuel(actions_of, 6);
}

/// A `get` in progress: the file of the key is being read.
#[derive(Debug, PartialEq, Eq)]
pub struct GetOp {
    read: ReadOp,
}

/// A [`GetOp`] over byte sequences.
pub ghost struct GetOpView {
    pub read: ReadOpView,
}

impl View for GetOp {
    type V = GetOpView;

    closed spec fn view(&self) -> GetOpView {
        GetOpView { read: self.read@ }
    }
}

impl GetOpView {
    /// The `get`, given where the read of the file stands: a missing file
    /// means that the key is absent, which is no error; every other
    /// failure is one.
    pub open spec fn lift(inner: StepView<ReadOpView, Seq<u8>>) -> StepView<
        GetOpView,
        Option<Seq<u8>>,
    > {
        match inner {
            StepView::Perform { state, action } => StepView::Perform {
                state: GetOpView { read: state },
                action,
            },
            StepView::Done { value } => StepView::Done { value: Some(value) },
            StepView::Failed { error } => if error is NotFound {
                StepView::Done { value: None }
            } else {
                StepView::Failed { error }
            },
        }
    }

    /// What the `get` does on `event`.
    pub open spec fn step(self, event: IoEventView) -> StepView<GetOpView, Option<Seq<u8>>> {
        GetOpView::lift(self.read.step(event))
    }
}

impl Machine for GetOpView {
    type Out = Option<Seq<u8>>;

    open spec fn advance(self, event: IoEventView) -> StepView<GetOpView, Option<Seq<u8>>> {
        self.step(event)
    }
}

/// The first step of getting `key`: its file is to be read.
pub open spec fn get_begin(store: CommandControllerView, key: Seq<char>) -> StepView<
    GetOpView,
    Option<Seq<u8>>,
> {
    GetOpView::lift(read_begin(store.path_of(key)))
}

impl GetOp {
    fn lift(inner: Step<ReadOp, Vec<u8>>) -> (out: Step<GetOp, Option<Vec<u8>>>)
        ensures
            out@ == GetOpView::lift(inner@),
    {
        match inner {
            Step::Perform { state, action } => Step::Perform {
                state: GetOp { read: state },
                action,
            },
            Step::Done { value } => Step::Done { value: Some(value) },
            Step::Failed { error } => match error {
                StoreError::NotFound { .. } => Step::Done { value: None },
                other => Step::Failed { error: other },
            },
        }
    }

    /// Takes the outcome of the read and ends the `get`.
    pub fn step(self, event: IoEvent) -> (out: Step<GetOp, Option<Vec<u8>>>)
        ensures
            out@ == self@.step(event@),
    {
        GetOp::lift(self.read.step(event))
    }
}

/// The bytes that the first of `events` reports; none where it reports a
/// failure or there is no event.
pub open spec fn first_payload(events: Seq<IoEventView>) -> Seq<u8> {
    if events.len() > 0 {
        events[0].bytes()
    } else {
        Seq::empty()
    }
}

/// Whatever the outcomes, a `set` asks for the actions of its script in
/// their order and for nothing else, and for each but the first only after
/// the one before it has succeeded. So the file of the key and its
/// temporary sibling are touched only after the record was appended to the
/// log and the log was flushed, and an event too long for a record ends
/// the `set` at once.
pub proof fn lemma_set_follows_script(
    store: CommandControllerView,
    key: Seq<char>,
    value: Seq<u8>,
    suffix: Seq<u8>,
    events: Seq<IoEventView>,
)
    ensures
        ({
            let payload = first_payload(events);
            let script = set_script(store, key, value, suffix, payload);
            let asked = actions_of(set_begin(store, key, value, suffix), events);
            &&& 1 <= asked.len() <= script.len()
            &&& asked.len() <= events.len() + 1
            &&& asked == script.take(asked.len() as int)
            &&& all_completed(events, asked.len() - 1)
            &&& asked.len() > 1 ==> payload.len() <= MAX_PAYLOAD
        }),
{
    reveal_with_fuel(actions_of, 9);
}

/// Whatever the outcomes, a `set` succeeds exactly when the event was
/// serialised to a payload that fits a record and the six actions behind
/// it, up to the rename, have all succeeded. The guarantee is the higher
/// one exactly when the flush of the directory succeeded too.
pub proof fn lemma_set_succeeds_exactly_when(
    store: CommandControllerView,
    key: Seq<char>,
    value: Seq<u8>,
    suffix: Seq<u8>,
    events: Seq<IoEventView>,
)
    ensures
        ({
            let end = end_of(set_begin(store, key, value, suffix), events);
            &&& end is Done <==> events.len() >= 8 && all_completed(events, 7) && first_payload(
                events,
            ).len() <= MAX_PAYLOAD
            &&& end is Done ==> (end->value == Durability::PowerLossAtomic
                <==> !(events[7] is Failed))
        }),
{
    reveal_with_fuel(end_of, 9);
}

/// Whether `first` is the first step of starting a store on `directory`
/// at `secs`, with some valid suffix for the temporary files of the replay.
pub open spec fn begins_startup(
    first: StepView<StartupView, CommandControllerView>,
    directory: Seq<u8>,
    secs: u64,
) -> bool {
    &&& first is Perform
    &&& valid_suffix(first->state.suffix)
    &&& first == startup_begin(directory, secs, first->state.suffix)
}

impl CommandController {
    /// The store on `directory` whose log file is `log_path`.
    pub(crate) fn assemble(directory: Vec<u8>, log_path: Vec<u8>) -> (out: CommandController)
        ensures
            out@ == (CommandControllerView { directory: directory@, log_path: log_path@ }),
    {
        CommandController { directory, wol: WOLEngine::at(log_path) }
    }

    /// Begins to start a store on the data directory `directory` at
    /// `now_secs` seconds since the epoch, with the given suffix for the
    /// temporary files of the replay.
    pub fn new_with_suffix(directory: &[u8], now_secs: u64, suffix: &[u8]) -> (out: Step<
        Startup,
        CommandController,
    >)
        ensures
            out@ == startup_begin(directory@, now_secs, suffix@),
    {
        Startup::begin(directory, now_secs, suffix)
    }

    /// Begins to start a store on the data directory `directory` at
    /// `now_secs` seconds since the epoch. The logs of earlier runs in the
    /// directory `wol` below are replayed in the order of their names, so
    /// that every file of a key holds what its last logged event says;
    /// then the log of this run is created.
    pub fn new(directory: &[u8], now_secs: u64) -> (out: Step<Startup, CommandController>)
        ensures
            begins_startup(out@, directory@, now_secs),
    {
        let suffix = fresh_suffix();
        Startup::begin(directory, now_secs, suffix.as_slice())
    }

    /// The data directory.
    pub fn directory(&self) -> (out: &[u8])
        ensures
            out@ == self@.directory,
    {
        self.directory.as_slice()
    }

    /// The path of the store's log file.
    pub fn log_path(&self) -> (out: &[u8])
        ensures
            out@ == self@.log_path,
    {
        self.wol.log_path()
    }

    /// Begins to set `key` to `value`, writing through the temporary file
    /// with the given suffix.
    pub fn set_with_suffix(&self, key: &str, value: &[u8], suffix: &[u8]) -> (out: Step<
        SetOp,
        Durability,
    >)
        ensures
            out@ == set_begin(self@, key@, value@, suffix@),
    {
        let path = make_key_path(self.directory.as_slice(), key.as_bytes());
        let event = WriteEvent::Write(key.to_owned(), copy_bytes(value));
        let logging = self.wol.write_event(event);
        let (temp, create) = temp_file_for(path.as_slice(), suffix);
        let write = AtomicWrite::waiting(path.as_slice(), temp, value, true);
        SetOp::lift_append(logging, write, create)
    }

    /// Begins to set `key` to `value`: the event is appended to the log,
    /// and only then is the value written to the file of the key, through
    /// a fresh temporary sibling. An event whose serialised form is longer
    /// than the 255 bytes that a record can hold ends the `set` with
    /// [`StoreError::PayloadTooLarge`], and nothing is written: how long a
    /// value may be depends on how the caller serialises events.
    pub fn set(&self, key: &str, value: &[u8]) -> (out: Step<SetOp, Durability>)
        ensures
            begins_set(out@, self@, key@, value@),
    {
        let path = make_key_path(self.directory.as_slice(), key.as_bytes());
        let event = WriteEvent::Write(key.to_owned(), copy_bytes(value));
        let logging = self.wol.write_event(event);
        let (temp, create) = create_temp_file(path.as_slice());
        let write = AtomicWrite::waiting(path.as_slice(), temp, value, true);
        SetOp::lift_append(logging, write, create)
    }

    /// Begins to get the value of `key`. A key without a file is absent.
    pub fn get(&self, key: &str) -> (out: Step<GetOp, Option<Vec<u8>>>)
        ensures
            out@ == get_begin(self@, key@),
    {
        let path = make_key_path(self.directory.as_slice(), key.as_bytes());
        GetOp::lift(read(path.as_slice()))
    }

    /// Begins to delete `key`: the event is appended to the log, and only
    /// then is the file of the key removed. A key without a file ends the
    /// `delete` with [`StoreError::NotFound`], after its event was logged.
    /// An event whose serialised form is longer than a record can hold
    /// ends it with [`StoreError::PayloadTooLarge`]; the file then stays.
    pub fn delete(&self, key: &str) -> (out: Step<RemoveOp, Durability>)
        ensures
            out@ == remove_begin(self@, key@),
    {
        let path = make_key_path(self.directory.as_slice(), key.as_bytes());
        let logging = self.wol.write_event(WriteEvent::Delete(key.to_owned()));
        let first = IoAction::Remove { path: copy_bytes(path.as_slice()) };
        RemoveOp::lift_append(logging, DeleteOp::waiting(path.as_slice()), first)
    }
}

} // verus!

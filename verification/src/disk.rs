//! A file system as the store expects it to behave, and what the store's
//! operations do on it.
//!
//! The model holds the files of one flat name space, from path to
//! contents. Every action does what its name says and fails only where the
//! model says so: a missing file cannot be read, removed, renamed or
//! written to, and a file that exists cannot be created anew. Renaming is
//! one step: the target holds the old contents before it and the new ones
//! after it.

use vstd::prelude::*;
use crate::commands::CommandControllerView;
use crate::commands::GetOpView;
use crate::commands::get_begin;
use crate::commands::remove_begin;
use crate::commands::RemoveOpView;
use crate::commands::set_begin;
use crate::digest::HASH_LENGTH;
use crate::digest::sha256_hex;
use crate::error::Durability;
use crate::error::IoErrorKind;
use crate::error::StoreErrorView;
use crate::io::IoActionView;
use crate::io::IoEventView;
use crate::io::Machine;
use crate::io::StepView;
use crate::paths::listing;
use crate::paths::log_path;
use crate::paths::temp_path;
use crate::persist::lemma_temp_path_differs;
use crate::persist::write::AtomicWriteView;
use crate::persist::write::write_begin;
use crate::persist::del::DeleteOpView;
use crate::persist::del::delete_begin;
use crate::record::MAX_PAYLOAD;
use crate::record::first_corruption;
use crate::record::framed;
use crate::record::lemma_append_extends_records;
use crate::record::valid_records;
use crate::wol::WriteEventView;

verus! {

/// How events are serialised and read back.
pub ghost struct Codec {
    /// The payload of each event; `None` where it cannot be serialised.
    pub encode: spec_fn(WriteEventView) -> Option<Seq<u8>>,
    /// The event of each payload; `None` where none can be read from it.
    pub decode: spec_fn(Seq<u8>) -> Option<WriteEventView>,
}

/// The files and directories of a file system, and what listing a
/// directory reports.
pub ghost struct Disk {
    pub files: Map<Seq<u8>, Seq<u8>>,
    pub dirs: Set<Seq<u8>>,
    /// The names that a listing of each directory reports, in the order in
    /// which it reports them. The model keeps them as they are: it lists
    /// only before it creates.
    pub entries: spec_fn(Seq<u8>) -> Seq<Seq<u8>>,
}

/// The outcome of an action that reports no bytes.
pub open spec fn completed() -> IoEventView {
    IoEventView::Completed { data: Seq::empty() }
}

/// The outcome of an action on a file that is missing.
pub open spec fn not_found() -> IoEventView {
    IoEventView::Failed { kind: IoErrorKind::NotFound }
}

/// The outcome of creating what exists already.
pub open spec fn already_exists() -> IoEventView {
    IoEventView::Failed { kind: IoErrorKind::AlreadyExists }
}

impl Disk {
    /// Whether a file lies at `path`.
    pub open spec fn has(self, path: Seq<u8>) -> bool {
        self.files.dom().contains(path)
    }

    /// Whether `path` is on this disk what it is on `other`: missing on
    /// both, or a file of the same contents.
    pub open spec fn same_file(self, other: Disk, path: Seq<u8>) -> bool {
        &&& self.has(path) == other.has(path)
        &&& self.has(path) ==> self.files[path] == other.files[path]
    }

    /// Whether the file `path` is what it is on `before` with `tail`
    /// appended.
    pub open spec fn grown_by(self, before: Disk, path: Seq<u8>, tail: Seq<u8>) -> bool {
        &&& before.has(path)
        &&& self.has(path)
        &&& self.files[path] == before.files[path] + tail
    }

    /// The disk with `contents` in the file `path`.
    pub open spec fn with_file(self, path: Seq<u8>, contents: Seq<u8>) -> Disk {
        Disk { files: self.files.insert(path, contents), dirs: self.dirs, entries: self.entries }
    }

    /// The disk without the file `path`.
    pub open spec fn without_file(self, path: Seq<u8>) -> Disk {
        Disk { files: self.files.remove(path), dirs: self.dirs, entries: self.entries }
    }

    /// What `action` reports on this disk.
    pub open spec fn reply(self, action: IoActionView, codec: Codec) -> IoEventView {
        match action {
            IoActionView::Encode { event } => match (codec.encode)(event) {
                Some(data) => IoEventView::Completed { data },
                None => IoEventView::Failed { kind: IoErrorKind::Other },
            },
            IoActionView::Decode { payload } => match (codec.decode)(payload) {
                Some(event) => IoEventView::Decoded { event },
                None => IoEventView::Failed { kind: IoErrorKind::Other },
            },
            IoActionView::ListDir { path } => IoEventView::Completed {
                data: listing((self.entries)(path)),
            },
            IoActionView::CreateDir { path } => if self.dirs.contains(path) {
                already_exists()
            } else {
                completed()
            },
            IoActionView::CreateNew { path } => if self.has(path) {
                already_exists()
            } else {
                completed()
            },
            IoActionView::Append { path, .. } => if self.has(path) {
                completed()
            } else {
                not_found()
            },
            IoActionView::CreateTruncate { .. } => completed(),
            IoActionView::WriteAll { path, .. } => if self.has(path) {
                completed()
            } else {
                not_found()
            },
            IoActionView::SyncFile { path } => if self.has(path) {
                completed()
            } else {
                not_found()
            },
            IoActionView::Rename { from, .. } => if self.has(from) {
                completed()
            } else {
                not_found()
            },
            IoActionView::SyncDir { .. } => completed(),
            IoActionView::ReadAll { path } => if self.has(path) {
                IoEventView::Completed { data: self.files[path] }
            } else {
                not_found()
            },
            IoActionView::Remove { path } => if self.has(path) {
                completed()
            } else {
                not_found()
            },
        }
    }

    /// The disk after `action`. An action that fails changes nothing.
    pub open spec fn after(self, action: IoActionView) -> Disk {
        match action {
            IoActionView::CreateDir { path } => Disk {
                files: self.files,
                dirs: self.dirs.insert(path),
                entries: self.entries,
            },
            IoActionView::CreateNew { path } => if self.has(path) {
                self
            } else {
                self.with_file(path, Seq::empty())
            },
            IoActionView::Append { path, bytes } => if self.has(path) {
                self.with_file(path, self.files[path] + bytes)
            } else {
                self
            },
            IoActionView::CreateTruncate { path } => self.with_file(path, Seq::empty()),
            IoActionView::WriteAll { path, bytes } => if self.has(path) {
                self.with_file(path, self.files[path] + bytes)
            } else {
                self
            },
            IoActionView::Rename { from, to } => if self.has(from) {
                self.without_file(from).with_file(to, self.files[from])
            } else {
                self
            },
            IoActionView::Remove { path } => self.without_file(path),
            _ => self,
        }
    }
}

/// Where an operation and the disk stand after at most `actions` more
/// actions, each performed on the disk and its outcome handed to the
/// operation.
pub open spec fn run<M: Machine>(
    step: StepView<M, M::Out>,
    disk: Disk,
    codec: Codec,
    actions: nat,
) -> (Disk, StepView<M, M::Out>)
    decreases actions,
{
    if actions == 0 {
        (disk, step)
    } else {
        match step {
            StepView::Perform { state, action } => run(
                state.advance(disk.reply(action, codec)),
                disk.after(action),
                codec,
                (actions - 1) as nat,
            ),
            _ => (disk, step),
        }
    }
}

/// The most actions that a `get` asks for.
pub open spec fn get_actions() -> nat {
    1
}

/// The most actions that the removal of a file asks for.
pub open spec fn delete_actions() -> nat {
    2
}

/// The most actions that a `delete` of a key asks for.
pub open spec fn remove_actions() -> nat {
    5
}

/// The most actions that a `set` asks for.
pub open spec fn set_actions() -> nat {
    8
}

/// A `get` reads the file of the key and changes nothing: it ends with the
/// contents where the file exists and with "absent" where it does not,
/// never with an error.
pub proof fn lemma_get_reads_the_file(
    store: CommandControllerView,
    key: Seq<char>,
    disk: Disk,
    codec: Codec,
)
    ensures
        run(get_begin(store, key), disk, codec, get_actions()) == (
            disk,
            StepView::<GetOpView, Option<Seq<u8>>>::Done {
                value: if disk.has(store.path_of(key)) {
                    Some(disk.files[store.path_of(key)])
                } else {
                    None
                },
            },
        ),
{
    reveal_with_fuel(run, 2);
}

/// The removal of a file removes that file and nothing else. Where the
/// file is missing it ends with `NotFound` and changes nothing.
pub proof fn lemma_delete_removes_the_file(path: Seq<u8>, disk: Disk, codec: Codec)
    ensures
        disk.has(path) ==> run(delete_begin(path), disk, codec, delete_actions()) == (
            disk.without_file(path),
            StepView::<DeleteOpView, Durability>::Done { value: Durability::PowerLossAtomic },
        ),
        !disk.has(path) ==> run(delete_begin(path), disk, codec, delete_actions()) == (
            disk,
            StepView::<DeleteOpView, Durability>::Failed {
                error: StoreErrorView::NotFound { path },
            },
        ),
{
    reveal_with_fuel(run, 3);
    if !disk.has(path) {
        assert(disk.without_file(path).files =~= disk.files);
    }
}

/// Whether a `delete` of `key` gets its record into the log on `disk`.
pub open spec fn delete_can_log(
    store: CommandControllerView,
    key: Seq<char>,
    disk: Disk,
    codec: Codec,
) -> bool {
    &&& (codec.encode)(WriteEventView::Delete(key)) is Some
    &&& (codec.encode)(WriteEventView::Delete(key))->Some_0.len() <= MAX_PAYLOAD
    &&& disk.has(store.log_path)
}

/// The disk with the record of `Delete(key)` at the end of the log.
pub open spec fn disk_with_delete_logged(
    store: CommandControllerView,
    key: Seq<char>,
    disk: Disk,
    codec: Codec,
) -> Disk {
    let payload = (codec.encode)(WriteEventView::Delete(key))->Some_0;
    disk.with_file(store.log_path, disk.files[store.log_path] + framed(payload))
}

/// A `delete` logs its event and then removes the file of the key. Where
/// the record does not get into the log, it fails and changes nothing.
/// Where it does and the file is missing, it ends with `NotFound`, with
/// the record in the log and nothing else changed.
pub proof fn lemma_delete_logs_then_removes(
    store: CommandControllerView,
    key: Seq<char>,
    disk: Disk,
    codec: Codec,
)
    ensures
        ({
            let path = store.path_of(key);
            let (after, end) = run(remove_begin(store, key), disk, codec, remove_actions());
            let logged = disk_with_delete_logged(store, key, disk, codec);
            &&& end !is Perform
            &&& !delete_can_log(store, key, disk, codec) ==> end is Failed && after == disk
            &&& delete_can_log(store, key, disk, codec) && logged.has(path) ==> {
                &&& end == StepView::<RemoveOpView, Durability>::Done {
                    value: Durability::PowerLossAtomic,
                }
                &&& after == logged.without_file(path)
            }
            &&& delete_can_log(store, key, disk, codec) && !logged.has(path) ==> {
                &&& end == StepView::<RemoveOpView, Durability>::Failed {
                    error: StoreErrorView::NotFound { path },
                }
                &&& after.files == logged.files
            }
        }),
{
    reveal_with_fuel(run, 6);
    let path = store.path_of(key);
    let logged = disk_with_delete_logged(store, key, disk, codec);
    if delete_can_log(store, key, disk, codec) && !logged.has(path) {
        assert(logged.without_file(path).files =~= logged.files);
    }
}

/// A second `delete` after one that succeeded ends with `NotFound`: the
/// file stays missing, and only the log grows. This is stated for a key
/// whose file is not the log file itself.
pub proof fn lemma_second_delete_is_not_found(
    store: CommandControllerView,
    key: Seq<char>,
    disk: Disk,
    codec: Codec,
)
    requires
        store.path_of(key) != store.log_path,
    ensures
        ({
            let path = store.path_of(key);
            let (after_first, first) = run(
                remove_begin(store, key),
                disk,
                codec,
                remove_actions(),
            );
            let (after_second, second) = run(
                remove_begin(store, key),
                after_first,
                codec,
                remove_actions(),
            );
            first is Done ==> {
                &&& second == StepView::<RemoveOpView, Durability>::Failed {
                    error: StoreErrorView::NotFound { path },
                }
                &&& !after_second.has(path)
            }
        }),
{
    lemma_delete_logs_then_removes(store, key, disk, codec);
    let after_first = run(remove_begin(store, key), disk, codec, remove_actions()).0;
    lemma_delete_logs_then_removes(store, key, after_first, codec);
}

/// The most actions that a write asks for.
pub open spec fn write_actions() -> nat {
    5
}

/// A write replaces the file by the new bytes and leaves no temporary file
/// behind. Wherever it stops, after any number of its actions, the file
/// holds what it held before or the whole of the new bytes.
pub proof fn lemma_write_replaces_the_file(
    target: Seq<u8>,
    data: Seq<u8>,
    suffix: Seq<u8>,
    sync_parent: bool,
    disk: Disk,
    codec: Codec,
    actions: nat,
)
    ensures
        ({
            let temp = temp_path(target, suffix);
            let first = write_begin(target, data, suffix, sync_parent);
            let (after, end) = run(first, disk, codec, write_actions());
            let now = run(first, disk, codec, actions).0;
            &&& end == StepView::<AtomicWriteView, Durability>::Done {
                value: if sync_parent {
                    Durability::PowerLossAtomic
                } else {
                    Durability::ReadersWriterAtomic
                },
            }
            &&& after.files == disk.files.remove(temp).insert(target, data)
            &&& now.same_file(disk, target) || (now.has(target) && now.files[target] == data)
        }),
{
    let temp = temp_path(target, suffix);
    let first = write_begin(target, data, suffix, sync_parent);
    lemma_temp_path_differs(target, suffix);
    reveal_with_fuel(run, 6);
    assert(run(first, disk, codec, write_actions()).0.files == disk.files.remove(temp).insert(
        target,
        data,
    ));
    if actions >= write_actions() {
        lemma_run_stops(first, disk, codec, write_actions(), actions);
    }
}

/// Whether a `set` of `key` to `value` gets its record into the log on
/// `disk`: the event can be serialised, the payload fits a record, and the
/// log file exists.
pub open spec fn set_can_log(
    store: CommandControllerView,
    key: Seq<char>,
    value: Seq<u8>,
    disk: Disk,
    codec: Codec,
) -> bool {
    &&& (codec.encode)(WriteEventView::Write(key, value)) is Some
    &&& (codec.encode)(WriteEventView::Write(key, value))->Some_0.len() <= MAX_PAYLOAD
    &&& disk.has(store.log_path)
}

/// The disk after a `set` that succeeded: the log file holds one record
/// more, the file of the key holds the value, and the temporary file is
/// gone.
pub open spec fn disk_after_set(
    store: CommandControllerView,
    key: Seq<char>,
    value: Seq<u8>,
    suffix: Seq<u8>,
    disk: Disk,
    codec: Codec,
) -> Disk {
    let target = store.path_of(key);
    let temp = temp_path(target, suffix);
    let payload = (codec.encode)(WriteEventView::Write(key, value))->Some_0;
    let logged = disk.with_file(store.log_path, disk.files[store.log_path] + framed(payload));
    logged.with_file(temp, value).without_file(temp).with_file(target, value)
}

/// A `set` succeeds exactly where its record gets into the log, and then
/// leaves the value in the file of the key. Where it fails, it fails before
/// the first action on that file, and the disk is as it was.
pub proof fn lemma_set_writes_the_value(
    store: CommandControllerView,
    key: Seq<char>,
    value: Seq<u8>,
    suffix: Seq<u8>,
    disk: Disk,
    codec: Codec,
)
    ensures
        ({
            let (after, end) = run(
                set_begin(store, key, value, suffix),
                disk,
                codec,
                set_actions(),
            );
            &&& end !is Perform
            &&& end is Done <==> set_can_log(store, key, value, disk, codec)
            &&& end is Done ==> {
                &&& end->value == Durability::PowerLossAtomic
                &&& after == disk_after_set(store, key, value, suffix, disk, codec)
                &&& after.has(store.path_of(key))
                &&& after.files[store.path_of(key)] == value
            }
            &&& end is Failed ==> after == disk
        }),
{
    reveal_with_fuel(run, 9);
    let target = store.path_of(key);
    let temp = temp_path(target, suffix);
    let first = set_begin(store, key, value, suffix);
    if set_can_log(store, key, value, disk, codec) {
        let payload = (codec.encode)(WriteEventView::Write(key, value))->Some_0;
        let logged = disk.with_file(store.log_path, disk.files[store.log_path] + framed(payload));
        // The temporary file is created empty and then holds the value.
        let written = logged.with_file(temp, Seq::empty()).with_file(
            temp,
            Seq::<u8>::empty() + value,
        );
        assert(written.files =~= logged.with_file(temp, value).files);
        assert(run(first, disk, codec, set_actions()).0 == written.without_file(temp).with_file(
            target,
            value,
        ));
    }
}

/// A `get` after a `set` that succeeded ends with the value that was set,
/// whatever the key and the value, the empty one included.
pub proof fn lemma_set_then_get(
    store: CommandControllerView,
    key: Seq<char>,
    value: Seq<u8>,
    suffix: Seq<u8>,
    disk: Disk,
    codec: Codec,
)
    ensures
        ({
            let (after, end) = run(
                set_begin(store, key, value, suffix),
                disk,
                codec,
                set_actions(),
            );
            end is Done ==> run(get_begin(store, key), after, codec, get_actions()) == (
                after,
                StepView::<GetOpView, Option<Seq<u8>>>::Done { value: Some(value) },
            )
        }),
{
    lemma_set_writes_the_value(store, key, value, suffix, disk, codec);
    let after = run(set_begin(store, key, value, suffix), disk, codec, set_actions()).0;
    lemma_get_reads_the_file(store, key, after, codec);
}

/// A `get` after a `delete` that succeeded ends with "absent".
pub proof fn lemma_delete_then_get(
    store: CommandControllerView,
    key: Seq<char>,
    disk: Disk,
    codec: Codec,
)
    ensures
        ({
            let (after, end) = run(remove_begin(store, key), disk, codec, remove_actions());
            end is Done ==> run(get_begin(store, key), after, codec, get_actions()) == (
                after,
                StepView::<GetOpView, Option<Seq<u8>>>::Done { value: None },
            )
        }),
{
    lemma_delete_logs_then_removes(store, key, disk, codec);
    let after = run(remove_begin(store, key), disk, codec, remove_actions()).0;
    lemma_get_reads_the_file(store, key, after, codec);
}

/// Wherever a `set` stops, after any number of its actions, the file of
/// the key holds what it held before or the whole new value: no reader
/// finds anything in between. This is stated for a key whose file is not
/// the log file itself.
pub proof fn lemma_target_is_never_partial(
    store: CommandControllerView,
    key: Seq<char>,
    value: Seq<u8>,
    suffix: Seq<u8>,
    disk: Disk,
    codec: Codec,
    actions: nat,
)
    requires
        store.path_of(key) != store.log_path,
    ensures
        ({
            let target = store.path_of(key);
            let now = run(set_begin(store, key, value, suffix), disk, codec, actions).0;
            ||| now.same_file(disk, target)
            ||| now.has(target) && now.files[target] == value
        }),
{
    let target = store.path_of(key);
    lemma_temp_path_differs(target, suffix);
    lemma_set_writes_the_value(store, key, value, suffix, disk, codec);
    reveal_with_fuel(run, 9);
    if actions >= set_actions() {
        lemma_run_stops(set_begin(store, key, value, suffix), disk, codec, set_actions(), actions);
    }
}

/// An operation that has ended after `enough` actions stands there after
/// any greater number.
pub proof fn lemma_run_stops<M: Machine>(
    step: StepView<M, M::Out>,
    disk: Disk,
    codec: Codec,
    enough: nat,
    actions: nat,
)
    requires
        run(step, disk, codec, enough).1 !is Perform,
        enough <= actions,
    ensures
        run(step, disk, codec, actions) == run(step, disk, codec, enough),
    decreases enough,
{
    if enough == 0 {
        reveal_with_fuel(run, 2);
    } else {
        match step {
            StepView::Perform { state, action } => {
                lemma_run_stops(
                    state.advance(disk.reply(action, codec)),
                    disk.after(action),
                    codec,
                    (enough - 1) as nat,
                    (actions - 1) as nat,
                );
            },
            _ => {},
        }
    }
}

/// The log is written before the data. Wherever a `set` stops, the file of
/// the key is as it was unless the record of the event stands at the end of
/// the log file; and from the second action on, a `set` whose record got
/// into the log has it there. Where the log was whole before, validating
/// it then shows the event behind the records that were there; this part
/// rests on the checksum having its 64 digits, which the digest promises
/// of every payload it is computed for. All of this is stated for a key
/// whose file and temporary file are not the log file itself.
pub proof fn lemma_log_before_data(
    store: CommandControllerView,
    key: Seq<char>,
    value: Seq<u8>,
    suffix: Seq<u8>,
    disk: Disk,
    codec: Codec,
    actions: nat,
)
    requires
        store.path_of(key) != store.log_path,
        temp_path(store.path_of(key), suffix) != store.log_path,
    ensures
        ({
            let target = store.path_of(key);
            let log = store.log_path;
            let payload = (codec.encode)(WriteEventView::Write(key, value))->Some_0;
            let now = run(set_begin(store, key, value, suffix), disk, codec, actions).0;
            let logged = now.grown_by(disk, log, framed(payload));
            &&& logged || now.same_file(disk, target)
            &&& actions >= 2 && set_can_log(store, key, value, disk, codec) ==> logged
            &&& logged && sha256_hex(payload).len() == HASH_LENGTH && payload.len() <= MAX_PAYLOAD
                && first_corruption(disk.files[log], 0) is None ==> {
                &&& valid_records(now.files[log], 0) == valid_records(disk.files[log], 0).push(
                    payload,
                )
                &&& first_corruption(now.files[log], 0) is None
            }
        }),
{
    let target = store.path_of(key);
    let log = store.log_path;
    let payload = (codec.encode)(WriteEventView::Write(key, value))->Some_0;
    lemma_temp_path_differs(target, suffix);
    lemma_set_writes_the_value(store, key, value, suffix, disk, codec);
    reveal_with_fuel(run, 9);
    if actions >= set_actions() {
        lemma_run_stops(set_begin(store, key, value, suffix), disk, codec, set_actions(), actions);
    }
    if disk.has(log) && sha256_hex(payload).len() == HASH_LENGTH && payload.len() <= MAX_PAYLOAD
        && first_corruption(disk.files[log], 0) is None {
        lemma_append_extends_records(disk.files[log], sha256_hex(payload), payload, 0);
    }
}

} // verus!

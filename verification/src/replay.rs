//! What the start of a store does to the modelled file system: how the
//! events of the earlier logs come to stand in the files of their keys.

use vstd::prelude::*;
use vstd::utf8::encode_utf8;
use crate::commands::CommandControllerView;
use crate::disk::run;
use crate::disk::Codec;
use crate::disk::Disk;
use crate::io::IoActionView;
use crate::io::Machine;
use crate::io::StepView;
use crate::paths::join;
use crate::paths::key_path;
use crate::paths::least_above;
use crate::paths::lemma_least_above;
use crate::paths::listed_names;
use crate::paths::listing;
use crate::paths::log_dir;
use crate::paths::log_path;
use crate::paths::stamp_value;
use crate::paths::temp_path;
use crate::persist::del::DeleteOpView;
use crate::persist::del::DeleteStage;
use crate::persist::lemma_temp_path_differs;
use crate::persist::write::AtomicWriteView;
use crate::persist::write::WriteStage;
use crate::record::valid_records;
use crate::startup::key_of;
use crate::startup::later_has_key;
use crate::startup::lemma_next_event_ignores_phase;
use crate::startup::startup_begin;
use crate::startup::superseded;
use crate::startup::PhaseView;
use crate::startup::StartupView;
use crate::wol::WriteEventView;

verus! {

/// The file of the key of `event` in the data directory `directory`.
pub open spec fn file_of(directory: Seq<u8>, event: WriteEventView) -> Seq<u8> {
    key_path(directory, encode_utf8(key_of(event)))
}

/// Whether the disk holds what `event` says: the value of a `Write` in the
/// file of its key, no file for the key of a `Delete`.
pub open spec fn agrees(disk: Disk, directory: Seq<u8>, event: WriteEventView) -> bool {
    match event {
        WriteEventView::Write(_, value) => disk.has(file_of(directory, event))
            && disk.files[file_of(directory, event)] == value,
        WriteEventView::Delete(_) => !disk.has(file_of(directory, event)),
    }
}

/// The disk after `event` has been applied again. A disk that agrees with
/// the event is left as it is. Otherwise the value of a `Write` comes to
/// stand in the file of its key, through the temporary file, which is gone
/// afterwards; and the file of the key of a `Delete` is removed.
pub open spec fn replayed(
    disk: Disk,
    directory: Seq<u8>,
    suffix: Seq<u8>,
    event: WriteEventView,
) -> Disk {
    let path = file_of(directory, event);
    if agrees(disk, directory, event) {
        disk
    } else {
        match event {
            WriteEventView::Write(_, value) => Disk {
                files: disk.files.remove(temp_path(path, suffix)).insert(path, value),
                dirs: disk.dirs,
                entries: disk.entries,
            },
            WriteEventView::Delete(_) => disk.without_file(path),
        }
    }
}

/// The number of actions that applying `event` again takes.
pub open spec fn apply_actions(disk: Disk, directory: Seq<u8>, event: WriteEventView) -> nat {
    match event {
        WriteEventView::Write(_, _) => if agrees(disk, directory, event) {
            1
        } else {
            6
        },
        WriteEventView::Delete(_) => if agrees(disk, directory, event) {
            1
        } else {
            2
        },
    }
}

/// The disk after the events from `from` on have been applied again, in
/// their order, but for those that a later event of the same key
/// supersedes.
pub open spec fn applied(
    disk: Disk,
    directory: Seq<u8>,
    suffix: Seq<u8>,
    events: Seq<WriteEventView>,
    from: int,
) -> Disk
    decreases events.len() - from,
{
    if 0 <= from < events.len() {
        if superseded(events, from) {
            applied(disk, directory, suffix, events, from + 1)
        } else {
            applied(
                replayed(disk, directory, suffix, events[from]),
                directory,
                suffix,
                events,
                from + 1,
            )
        }
    } else {
        disk
    }
}

/// The number of actions that applying the events from `from` on takes.
pub open spec fn applied_actions(
    disk: Disk,
    directory: Seq<u8>,
    suffix: Seq<u8>,
    events: Seq<WriteEventView>,
    from: int,
) -> nat
    decreases events.len() - from,
{
    if 0 <= from < events.len() {
        if superseded(events, from) {
            applied_actions(disk, directory, suffix, events, from + 1)
        } else {
            apply_actions(disk, directory, events[from]) + applied_actions(
                replayed(disk, directory, suffix, events[from]),
                directory,
                suffix,
                events,
                from + 1,
            )
        }
    } else {
        0
    }
}

/// Running an operation for some actions and then for some more is
/// running it for all of them.
pub proof fn lemma_run_splits<M: Machine>(
    step: StepView<M, M::Out>,
    disk: Disk,
    codec: Codec,
    first: nat,
    then: nat,
)
    ensures
        run(step, disk, codec, first + then) == run(
            run(step, disk, codec, first).1,
            run(step, disk, codec, first).0,
            codec,
            then,
        ),
    decreases first,
{
    if first == 0 {
    } else {
        match step {
            StepView::Perform { state, action } => {
                lemma_run_splits(
                    state.advance(disk.reply(action, codec)),
                    disk.after(action),
                    codec,
                    (first - 1) as nat,
                    then,
                );
            },
            _ => {
                reveal_with_fuel(run, 2);
            },
        }
    }
}

impl StartupView {
    /// The start with `n` of its payloads handed out and `events` read
    /// back.
    pub open spec fn gathered(self, n: int, events: Seq<WriteEventView>) -> StartupView {
        StartupView {
            directory: self.directory,
            secs: self.secs,
            suffix: self.suffix,
            names: self.names,
            last: self.last,
            payloads: self.payloads,
            next: n,
            events,
            cursor: self.cursor,
            phase: self.phase,
        }
    }

    /// The path of the log with the name at `index` of the listing.
    pub open spec fn log_file(self, index: int) -> Seq<u8> {
        join(self.logs(), self.names[index])
    }

    /// The start with the log at `index` read from `disk`, and the events
    /// of its valid records read back behind those of the logs before.
    pub open spec fn with_log(self, disk: Disk, codec: Codec, index: int) -> StartupView {
        let payloads = valid_records(disk.files[self.log_file(index)], 0);
        self.loaded(stamp_value(self.names[index]), payloads).gathered(
            payloads.len() as int,
            self.events + events_of(payloads, codec),
        )
    }
}

/// What the start does once a payload is dealt with does not depend on
/// what it waited for.
pub proof fn lemma_next_payload_ignores_phase(start: StartupView, phase: PhaseView)
    ensures
        start.at(phase).next_payload() == start.next_payload(),
        start.at(phase).next_log() == start.next_log(),
{
    lemma_next_event_ignores_phase(start, phase);
}

/// The start applies an event again that no later one supersedes:
/// afterwards the disk agrees with the event, a disk that agreed before is
/// untouched, and the start goes on with the events behind it.
pub proof fn lemma_event_is_applied(start: StartupView, disk: Disk, codec: Codec)
    requires
        0 <= start.cursor < start.events.len(),
        !superseded(start.events, start.cursor),
    ensures
        ({
            let event = start.events[start.cursor];
            &&& run(
                start.next_event(),
                disk,
                codec,
                apply_actions(disk, start.directory, event),
            ) == (
                replayed(disk, start.directory, start.suffix, event),
                start.passed().next_event(),
            )
            &&& agrees(replayed(disk, start.directory, start.suffix, event), start.directory, event)
            &&& agrees(disk, start.directory, event) ==> replayed(
                disk,
                start.directory,
                start.suffix,
                event,
            ) == disk
        }),
{
    reveal_with_fuel(run, 7);
    let event = start.events[start.cursor];
    let path = file_of(start.directory, event);
    lemma_temp_path_differs(path, start.suffix);
    let after = run(start.next_event(), disk, codec, apply_actions(disk, start.directory, event));
    let passed = start.passed();
    // Whatever the start waited for last, it goes on with the next event.
    match event {
        WriteEventView::Write(_, value) => {
            let write = AtomicWriteView {
                target: path,
                temp: temp_path(path, start.suffix),
                data: Seq::empty(),
                sync_parent: true,
                stage: WriteStage::SyncingParent,
            };
            lemma_next_event_ignores_phase(passed, PhaseView::Checking { path, value });
            lemma_next_event_ignores_phase(passed, PhaseView::Writing { write });
            assert(after.0.files == replayed(disk, start.directory, start.suffix, event).files);
        },
        WriteEventView::Delete(_) => {
            lemma_next_event_ignores_phase(
                passed,
                PhaseView::Removing { remove: DeleteOpView { path, stage: DeleteStage::Removing } },
            );
            lemma_next_event_ignores_phase(
                passed,
                PhaseView::Removing {
                    remove: DeleteOpView { path, stage: DeleteStage::SyncingParent },
                },
            );
            if agrees(disk, start.directory, event) {
                assert(after.0.files == disk.files);
            }
        },
    }
}

/// The start applies the events again that it has read back, in their
/// order, but for those that a later event of the same key supersedes;
/// then it creates the log of this run.
pub proof fn lemma_events_are_applied(start: StartupView, disk: Disk, codec: Codec)
    requires
        0 <= start.cursor <= start.events.len(),
    ensures
        run(
            start.next_event(),
            disk,
            codec,
            applied_actions(disk, start.directory, start.suffix, start.events, start.cursor),
        ) == (
            applied(disk, start.directory, start.suffix, start.events, start.cursor),
            StepView::<StartupView, CommandControllerView>::Perform {
                state: start.gathered(start.next, start.events).at(PhaseView::CreatingLog).at_cursor(
                    start.events.len() as int,
                ),
                action: IoActionView::CreateNew { path: log_path(start.logs(), start.secs) },
            },
        ),
    decreases start.events.len() - start.cursor,
{
    if start.cursor == start.events.len() {
        reveal_with_fuel(run, 1);
        assert(start.gathered(start.next, start.events).at(PhaseView::CreatingLog).at_cursor(
            start.events.len() as int,
        ) == start.at(PhaseView::CreatingLog));
    } else if superseded(start.events, start.cursor) {
        lemma_events_are_applied(start.passed(), disk, codec);
    } else {
        let event = start.events[start.cursor];
        lemma_event_is_applied(start, disk, codec);
        let middle = replayed(disk, start.directory, start.suffix, event);
        lemma_events_are_applied(start.passed(), middle, codec);
        lemma_run_splits(
            start.next_event(),
            disk,
            codec,
            apply_actions(disk, start.directory, event),
            applied_actions(
                middle,
                start.directory,
                start.suffix,
                start.events,
                start.cursor + 1,
            ),
        );
    }
}

impl StartupView {
    /// The start with `n` of its events dealt with.
    pub open spec fn at_cursor(self, n: int) -> StartupView {
        StartupView {
            directory: self.directory,
            secs: self.secs,
            suffix: self.suffix,
            names: self.names,
            last: self.last,
            payloads: self.payloads,
            next: self.next,
            events: self.events,
            cursor: n,
            phase: self.phase,
        }
    }
}

/// Whether an event can be read back from each of `payloads`.
pub open spec fn all_decode(payloads: Seq<Seq<u8>>, codec: Codec) -> bool {
    forall|i: int| 0 <= i < payloads.len() ==> (codec.decode)(#[trigger] payloads[i]) is Some
}

/// The events read back from `payloads`.
pub open spec fn events_of(payloads: Seq<Seq<u8>>, codec: Codec) -> Seq<WriteEventView> {
    Seq::new(payloads.len(), |i: int| (codec.decode)(payloads[i])->Some_0)
}

/// The start reads the payloads at hand back as events, from the payload
/// `from` to the one in front of `to`, one action each, and changes nothing
/// on the disk.
pub proof fn lemma_payloads_are_read_back(
    start: StartupView,
    disk: Disk,
    codec: Codec,
    from: int,
    to: int,
)
    requires
        0 <= from <= to <= start.payloads.len(),
        all_decode(start.payloads, codec),
    ensures
        run(
            start.gathered(from, start.events).next_payload(),
            disk,
            codec,
            (to - from) as nat,
        ) == (
            disk,
            start.gathered(
                to,
                start.events + events_of(start.payloads, codec).subrange(from, to),
            ).next_payload(),
        ),
    decreases to - from,
{
    let all = events_of(start.payloads, codec);
    if from == to {
        reveal_with_fuel(run, 1);
    } else {
        lemma_payloads_are_read_back(start, disk, codec, from, to - 1);
        let so_far = start.events + all.subrange(from, to - 1);
        let at = start.gathered(to - 1, so_far);
        assert(so_far.push(all[to - 1]) == start.events + all.subrange(from, to));
        assert(run(at.next_payload(), disk, codec, 1) == (
            disk,
            at.taken().collected(all[to - 1]).next_payload(),
        )) by {
            reveal_with_fuel(run, 2);
        }
        lemma_next_payload_ignores_phase(
            start.gathered(to, start.events + all.subrange(from, to)),
            PhaseView::Decoding,
        );
        assert(at.taken().collected(all[to - 1]) == start.gathered(
            to,
            start.events + all.subrange(from, to),
        ).at(PhaseView::Decoding));
        lemma_run_splits(
            start.gathered(from, start.events).next_payload(),
            disk,
            codec,
            (to - 1 - from) as nat,
            1,
        );
    }
}

/// The start after at most `rounds` more logs have been read, in the
/// order of their stamps: behind the events it held stand, for each log,
/// the events of the records in front of its first corrupted one.
pub open spec fn after_logs(start: StartupView, disk: Disk, codec: Codec, rounds: nat) -> StartupView
    decreases rounds,
{
    match least_above(start.names, start.last) {
        Some(index) => if rounds == 0 {
            start
        } else {
            after_logs(start.with_log(disk, codec, index), disk, codec, (rounds - 1) as nat)
        },
        None => start,
    }
}

/// The number of actions that reading at most `rounds` more logs takes.
pub open spec fn logs_actions(start: StartupView, disk: Disk, codec: Codec, rounds: nat) -> nat
    decreases rounds,
{
    match least_above(start.names, start.last) {
        Some(index) => if rounds == 0 {
            0
        } else {
            1 + start.with_log(disk, codec, index).payloads.len() + logs_actions(
                start.with_log(disk, codec, index),
                disk,
                codec,
                (rounds - 1) as nat,
            )
        },
        None => 0,
    }
}

/// Whether the next `rounds` logs can be read: each is a file, and an
/// event can be read back from the payload of each of its valid records.
pub open spec fn logs_readable(start: StartupView, disk: Disk, codec: Codec, rounds: nat) -> bool
    decreases rounds,
{
    match least_above(start.names, start.last) {
        Some(index) => rounds == 0 || {
            &&& disk.has(start.log_file(index))
            &&& all_decode(start.with_log(disk, codec, index).payloads, codec)
            &&& logs_readable(
                start.with_log(disk, codec, index),
                disk,
                codec,
                (rounds - 1) as nat,
            )
        },
        None => true,
    }
}

/// The start reads the logs in the order of their stamps: each log is read
/// and validated, and the payloads of its valid records are read back as
/// events. What stands behind the first corrupted record of a log is left
/// out; the logs behind it are read all the same. Nothing on the disk is
/// changed by this.
pub proof fn lemma_logs_are_read(start: StartupView, disk: Disk, codec: Codec, rounds: nat)
    requires
        logs_readable(start, disk, codec, rounds),
    ensures
        run(start.next_log(), disk, codec, logs_actions(start, disk, codec, rounds)) == (
            disk,
            after_logs(start, disk, codec, rounds).next_log(),
        ),
    decreases rounds,
{
    match least_above(start.names, start.last) {
        Some(index) => {
            if rounds == 0 {
                reveal_with_fuel(run, 1);
            } else {
                lemma_least_above(start.names, start.last);
                let done = start.with_log(disk, codec, index);
                let payloads = done.payloads;
                let loaded = start.loaded(stamp_value(start.names[index]), payloads);
                let reading = loaded.at(PhaseView::Reading { path: start.log_file(index) });
                // The log is read, which changes nothing.
                assert(run(start.next_log(), disk, codec, 1) == (
                    disk,
                    reading.gathered(0, reading.events).next_payload(),
                )) by {
                    reveal_with_fuel(run, 2);
                }
                // Its payloads are read back.
                lemma_payloads_are_read_back(reading, disk, codec, 0, payloads.len() as int);
                let events = events_of(payloads, codec);
                assert(events.subrange(0, payloads.len() as int) == events);
                lemma_next_payload_ignores_phase(done, PhaseView::Reading {
                    path: start.log_file(index),
                });
                assert(reading.gathered(payloads.len() as int, reading.events + events)
                    == done.at(PhaseView::Reading { path: start.log_file(index) }));
                lemma_run_splits(start.next_log(), disk, codec, 1, payloads.len());
                // The logs behind it follow.
                lemma_logs_are_read(done, disk, codec, (rounds - 1) as nat);
                lemma_run_splits(
                    start.next_log(),
                    disk,
                    codec,
                    1 + payloads.len(),
                    logs_actions(done, disk, codec, (rounds - 1) as nat),
                );
            }
        },
        None => {
            reveal_with_fuel(run, 1);
        },
    }
}

/// Reading logs keeps the listing, the directory, the seconds and the
/// suffix of the start, and deals with no event.
pub proof fn lemma_after_logs_keeps(start: StartupView, disk: Disk, codec: Codec, rounds: nat)
    ensures
        after_logs(start, disk, codec, rounds).names == start.names,
        after_logs(start, disk, codec, rounds).directory == start.directory,
        after_logs(start, disk, codec, rounds).secs == start.secs,
        after_logs(start, disk, codec, rounds).suffix == start.suffix,
        after_logs(start, disk, codec, rounds).cursor == start.cursor,
    decreases rounds,
{
    match least_above(start.names, start.last) {
        Some(index) => {
            if rounds != 0 {
                lemma_after_logs_keeps(
                    start.with_log(disk, codec, index),
                    disk,
                    codec,
                    (rounds - 1) as nat,
                );
            }
        },
        None => {},
    }
}

/// A start on a disk whose logs can be read. The directory of the logs is
/// created if it is missing, and listed. The logs are read in the order of
/// their stamps, and of each the records in front of its first corrupted
/// one are read back as events. Then the last event of each key is applied
/// again, so that the disk is [`applied`] of those events; the log of this
/// run is created empty, and the start ends with the store. Where a file
/// has the name of that log already, the start fails after the replay.
///
/// What the listing reports is read back as the names of the entries where
/// none of them holds a separator
/// ([`crate::paths::lemma_listing_is_read_back`]).
pub proof fn lemma_start_replays_the_logs(
    directory: Seq<u8>,
    secs: u64,
    suffix: Seq<u8>,
    disk: Disk,
    codec: Codec,
    rounds: nat,
)
    requires
        ({
            let listed = startup_begin(directory, secs, suffix)->state.listed(
                listed_names(listing((disk.entries)(log_dir(directory)))),
            );
            let created = disk.after(IoActionView::CreateDir { path: log_dir(directory) });
            &&& logs_readable(listed, created, codec, rounds)
            &&& least_above(listed.names, after_logs(listed, created, codec, rounds).last) is None
        }),
    ensures
        ({
            let listed = startup_begin(directory, secs, suffix)->state.listed(
                listed_names(listing((disk.entries)(log_dir(directory)))),
            );
            let created = disk.after(IoActionView::CreateDir { path: log_dir(directory) });
            let events = after_logs(listed, created, codec, rounds).events;
            let replayed = applied(created, directory, suffix, events, 0);
            let log = log_path(log_dir(directory), secs);
            let (after, end) = run(
                startup_begin(directory, secs, suffix),
                disk,
                codec,
                logs_actions(listed, created, codec, rounds) + applied_actions(
                    created,
                    directory,
                    suffix,
                    events,
                    0,
                ) + 3,
            );
            &&& !replayed.has(log) ==> {
                &&& end == StepView::<StartupView, CommandControllerView>::Done {
                    value: CommandControllerView { directory, log_path: log },
                }
                &&& after == replayed.with_file(log, Seq::empty())
            }
            &&& replayed.has(log) ==> end is Failed && after == replayed
        }),
{
    let first = startup_begin(directory, secs, suffix);
    let listed = first->state.listed(listed_names(listing((disk.entries)(log_dir(directory)))));
    let created = disk.after(IoActionView::CreateDir { path: log_dir(directory) });
    let reading = logs_actions(listed, created, codec, rounds);
    let read = after_logs(listed, created, codec, rounds);
    let applying = applied_actions(created, directory, suffix, read.events, 0);
    lemma_after_logs_keeps(listed, created, codec, rounds);
    assert(run(first, disk, codec, 2) == (created, listed.next_log())) by {
        reveal_with_fuel(run, 3);
    }
    lemma_logs_are_read(listed, created, codec, rounds);
    lemma_run_splits(first, disk, codec, 2, reading);
    lemma_events_are_applied(read, created, codec);
    lemma_run_splits(first, disk, codec, 2 + reading, applying);
    lemma_run_splits(first, disk, codec, 2 + reading + applying, 1);
    reveal_with_fuel(run, 2);
}

/// Whether applying `event` again can change the file `path`: it is the
/// file of the event's key, or the temporary file of a write to it.
pub open spec fn touches(
    directory: Seq<u8>,
    suffix: Seq<u8>,
    event: WriteEventView,
    path: Seq<u8>,
) -> bool {
    ||| file_of(directory, event) == path
    ||| temp_path(file_of(directory, event), suffix) == path
}

/// Applying events again leaves every file alone that none of the applied
/// ones touches.
pub proof fn lemma_apply_leaves_other_files(
    disk: Disk,
    directory: Seq<u8>,
    suffix: Seq<u8>,
    events: Seq<WriteEventView>,
    from: int,
    path: Seq<u8>,
)
    requires
        0 <= from,
        forall|i: int|
            from <= i < events.len() && !superseded(events, i) ==> !touches(
                directory,
                suffix,
                #[trigger] events[i],
                path,
            ),
    ensures
        applied(disk, directory, suffix, events, from).same_file(disk, path),
    decreases events.len() - from,
{
    if from < events.len() {
        if superseded(events, from) {
            lemma_apply_leaves_other_files(disk, directory, suffix, events, from + 1, path);
        } else {
            lemma_apply_leaves_other_files(
                replayed(disk, directory, suffix, events[from]),
                directory,
                suffix,
                events,
                from + 1,
                path,
            );
        }
    }
}

/// After the start, the disk agrees with the last event of each key: the
/// file holds the value of a last `Write`, and is missing after a last
/// `Delete`. This is stated for an event whose file is not the temporary
/// file of a write that is applied behind it.
pub proof fn lemma_last_event_stands(
    disk: Disk,
    directory: Seq<u8>,
    suffix: Seq<u8>,
    events: Seq<WriteEventView>,
    from: int,
    index: int,
)
    requires
        0 <= from <= index < events.len(),
        !superseded(events, index),
        forall|j: int|
            index < j < events.len() && !superseded(events, j) ==> temp_path(
                file_of(directory, #[trigger] events[j]),
                suffix,
            ) != file_of(directory, events[index]),
    ensures
        agrees(applied(disk, directory, suffix, events, from), directory, events[index]),
    decreases index - from,
{
    if from < index {
        let next = if superseded(events, from) {
            disk
        } else {
            replayed(disk, directory, suffix, events[from])
        };
        lemma_last_event_stands(next, directory, suffix, events, from + 1, index);
    } else {
        let event = events[index];
        let path = file_of(directory, event);
        let middle = replayed(disk, directory, suffix, event);
        lemma_temp_path_differs(path, suffix);
        assert forall|j: int| index + 1 <= j < events.len() && !superseded(events, j) implies !touches(
            directory,
            suffix,
            #[trigger] events[j],
            path,
        ) by {
            lemma_later_key_differs(events, index, j);
            if file_of(directory, events[j]) == path {
                crate::paths::lemma_join_is_injective(
                    directory,
                    encode_utf8(key_of(events[j])),
                    encode_utf8(key_of(event)),
                );
                vstd::utf8::encode_utf8_decode_utf8(key_of(events[j]));
                vstd::utf8::encode_utf8_decode_utf8(key_of(event));
            }
        }
        lemma_apply_leaves_other_files(middle, directory, suffix, events, index + 1, path);
    }
}

/// A start that succeeds leaves the disk in agreement with the last event
/// that the logs hold of each key: the file of the key holds the value of
/// a last `Write`, and is missing after a last `Delete`. This is stated
/// for a key whose file is neither the log of this run nor the temporary
/// file of a write that is applied behind its own event.
pub proof fn lemma_start_converges(
    directory: Seq<u8>,
    secs: u64,
    suffix: Seq<u8>,
    disk: Disk,
    codec: Codec,
    rounds: nat,
    index: int,
)
    requires
        ({
            let listed = startup_begin(directory, secs, suffix)->state.listed(
                listed_names(listing((disk.entries)(log_dir(directory)))),
            );
            let created = disk.after(IoActionView::CreateDir { path: log_dir(directory) });
            let events = after_logs(listed, created, codec, rounds).events;
            &&& logs_readable(listed, created, codec, rounds)
            &&& least_above(listed.names, after_logs(listed, created, codec, rounds).last) is None
            &&& !applied(created, directory, suffix, events, 0).has(
                log_path(log_dir(directory), secs),
            )
            &&& 0 <= index < events.len()
            &&& !superseded(events, index)
            &&& file_of(directory, events[index]) != log_path(log_dir(directory), secs)
            &&& forall|j: int|
                index < j < events.len() && !superseded(events, j) ==> temp_path(
                    file_of(directory, #[trigger] events[j]),
                    suffix,
                ) != file_of(directory, events[index])
        }),
    ensures
        ({
            let listed = startup_begin(directory, secs, suffix)->state.listed(
                listed_names(listing((disk.entries)(log_dir(directory)))),
            );
            let created = disk.after(IoActionView::CreateDir { path: log_dir(directory) });
            let events = after_logs(listed, created, codec, rounds).events;
            let (after, end) = run(
                startup_begin(directory, secs, suffix),
                disk,
                codec,
                logs_actions(listed, created, codec, rounds) + applied_actions(
                    created,
                    directory,
                    suffix,
                    events,
                    0,
                ) + 3,
            );
            &&& end is Done
            &&& agrees(after, directory, events[index])
        }),
{
    let listed = startup_begin(directory, secs, suffix)->state.listed(
        listed_names(listing((disk.entries)(log_dir(directory)))),
    );
    let created = disk.after(IoActionView::CreateDir { path: log_dir(directory) });
    let events = after_logs(listed, created, codec, rounds).events;
    lemma_start_replays_the_logs(directory, secs, suffix, disk, codec, rounds);
    lemma_last_event_stands(created, directory, suffix, events, 0, index);
}

/// An event that is not superseded has another key than every event
/// behind it.
pub proof fn lemma_later_key_differs(events: Seq<WriteEventView>, index: int, later: int)
    requires
        0 <= index < later < events.len(),
        !superseded(events, index),
    ensures
        key_of(events[later]) != key_of(events[index]),
{
    lemma_later_has_key(events, key_of(events[index]), index + 1, later);
}

/// Where none of the events from `from` on is about `key`, the one at
/// `later` is not.
pub proof fn lemma_later_has_key(
    events: Seq<WriteEventView>,
    key: Seq<char>,
    from: int,
    later: int,
)
    requires
        0 <= from <= later < events.len(),
        !later_has_key(events, key, from),
    ensures
        key_of(events[later]) != key,
    decreases later - from,
{
    if from < later {
        lemma_later_has_key(events, key, from + 1, later);
    }
}

/// A disk that agrees with the last event of every key is untouched by the
/// start: no file of a key is written or removed.
pub proof fn lemma_agreeing_disk_is_untouched(
    disk: Disk,
    directory: Seq<u8>,
    suffix: Seq<u8>,
    events: Seq<WriteEventView>,
    from: int,
)
    requires
        0 <= from <= events.len(),
        forall|i: int|
            from <= i < events.len() && !superseded(events, i) ==> agrees(
                disk,
                directory,
                #[trigger] events[i],
            ),
    ensures
        applied(disk, directory, suffix, events, from) == disk,
        applied_actions(disk, directory, suffix, events, from) <= events.len() - from,
    decreases events.len() - from,
{
    if from < events.len() {
        lemma_agreeing_disk_is_untouched(disk, directory, suffix, events, from + 1);
    }
}

} // verus!

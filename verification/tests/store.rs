use std::collections::HashMap;
use std::collections::HashSet;

use dirkv::commands::CommandController;
use dirkv::commands::GetOp;
use dirkv::commands::SetOp;
use dirkv::commands::RemoveOp;
use dirkv::error::Durability;
use dirkv::error::IoErrorKind;
use dirkv::error::IoStep;
use dirkv::error::StoreError;
use dirkv::io::IoAction;
use dirkv::io::IoEvent;
use dirkv::io::Step;
use dirkv::record::frame_record;
use dirkv::startup::Startup;
use dirkv::record::validate_log;
use dirkv::wol::WriteEvent;

/// A file system in memory that behaves as the store expects.
struct MemDisk {
    files: HashMap<Vec<u8>, Vec<u8>>,
    dirs: HashSet<Vec<u8>>,
    actions: Vec<IoAction>,
}

fn encode(event: &WriteEvent) -> Vec<u8> {
    let mut out: Vec<u8> = Vec::new();
    match event {
        WriteEvent::Write(key, value) => {
            out.push(b'W');
            out.push(key.len() as u8);
            out.extend_from_slice(key.as_bytes());
            out.extend_from_slice(value);
        },
        WriteEvent::Delete(key) => {
            out.push(b'D');
            out.push(key.len() as u8);
            out.extend_from_slice(key.as_bytes());
        },
    }
    out
}

fn decode(payload: &[u8]) -> Option<WriteEvent> {
    if payload.len() < 2 || payload.len() < 2 + payload[1] as usize {
        return None;
    }
    let end: usize = 2 + payload[1] as usize;
    let key = String::from_utf8(payload[2..end].to_vec()).ok()?;
    match payload[0] {
        b'W' => Some(WriteEvent::Write(key, payload[end..].to_vec())),
        b'D' if payload.len() == end => Some(WriteEvent::Delete(key)),
        _ => None,
    }
}

fn done() -> IoEvent {
    IoEvent::Completed { data: Vec::new() }
}

fn not_found() -> IoEvent {
    IoEvent::Failed { kind: IoErrorKind::NotFound }
}

fn already_there() -> IoEvent {
    IoEvent::Failed { kind: IoErrorKind::AlreadyExists }
}

impl MemDisk {
    fn new() -> MemDisk {
        MemDisk { files: HashMap::new(), dirs: HashSet::new(), actions: Vec::new() }
    }

    fn grow(&mut self, path: Vec<u8>, bytes: Vec<u8>) -> IoEvent {
        match self.files.get_mut(&path) {
            Some(contents) => {
                contents.extend(bytes);
                done()
            },
            None => not_found(),
        }
    }

    fn perform(&mut self, action: IoAction) -> IoEvent {
        self.actions.push(action.clone());
        match action {
            IoAction::Encode { event } => IoEvent::Completed { data: encode(&event) },
            IoAction::CreateDir { path } => {
                if self.dirs.insert(path) {
                    done()
                } else {
                    already_there()
                }
            },
            IoAction::CreateNew { path } => {
                if self.files.contains_key(&path) {
                    already_there()
                } else {
                    self.files.insert(path, Vec::new());
                    done()
                }
            },
            IoAction::Append { path, bytes } => self.grow(path, bytes),
            IoAction::CreateTruncate { path } => {
                self.files.insert(path, Vec::new());
                done()
            },
            IoAction::WriteAll { path, bytes } => self.grow(path, bytes),
            IoAction::SyncFile { path } => {
                if self.files.contains_key(&path) {
                    done()
                } else {
                    not_found()
                }
            },
            IoAction::Rename { from, to } => match self.files.remove(&from) {
                Some(contents) => {
                    self.files.insert(to, contents);
                    done()
                },
                None => not_found(),
            },
            IoAction::SyncDir { .. } => done(),
            IoAction::ReadAll { path } => match self.files.get(&path) {
                Some(contents) => IoEvent::Completed { data: contents.clone() },
                None => not_found(),
            },
            IoAction::ListDir { path } => {
                let mut prefix = path.clone();
                prefix.push(b'/');
                let mut names: Vec<Vec<u8>> = self
                    .files
                    .keys()
                    .filter(|file| file.starts_with(&prefix))
                    .map(|file| file[prefix.len()..].to_vec())
                    .filter(|name| !name.contains(&b'/'))
                    .collect();
                names.sort();
                names.reverse();
                let mut data: Vec<u8> = Vec::new();
                for name in names {
                    data.extend(name);
                    data.push(b'/');
                }
                IoEvent::Completed { data }
            },
            IoAction::Decode { payload } => match decode(&payload) {
                Some(event) => IoEvent::Decoded { event },
                None => IoEvent::Failed { kind: IoErrorKind::Other },
            },
            IoAction::Remove { path } => match self.files.remove(&path) {
                Some(_) => done(),
                None => not_found(),
            },
        }
    }

    fn start(&mut self, first: Step<Startup, CommandController>) -> Result<CommandController, StoreError> {
        let mut step = first;
        loop {
            match step {
                Step::Perform { state, action } => step = state.step(self.perform(action)),
                Step::Done { value } => return Ok(value),
                Step::Failed { error } => return Err(error),
            }
        }
    }

    fn set(&mut self, first: Step<SetOp, Durability>) -> Result<Durability, StoreError> {
        self.set_for(first, usize::MAX)
    }

    /// Runs a set for at most `actions` actions; `None` where it has not
    /// ended by then.
    fn set_some(&mut self, first: Step<SetOp, Durability>, actions: usize) -> Option<Result<Durability, StoreError>> {
        let mut step = first;
        let mut left = actions;
        loop {
            match step {
                Step::Perform { state, action } => {
                    if left == 0 {
                        return None;
                    }
                    left -= 1;
                    step = state.step(self.perform(action));
                },
                Step::Done { value } => return Some(Ok(value)),
                Step::Failed { error } => return Some(Err(error)),
            }
        }
    }

    fn set_for(&mut self, first: Step<SetOp, Durability>, actions: usize) -> Result<Durability, StoreError> {
        match self.set_some(first, actions) {
            Some(result) => result,
            None => panic!("the set did not end"),
        }
    }

    fn get(&mut self, first: Step<GetOp, Option<Vec<u8>>>) -> Result<Option<Vec<u8>>, StoreError> {
        let mut step = first;
        loop {
            match step {
                Step::Perform { state, action } => step = state.step(self.perform(action)),
                Step::Done { value } => return Ok(value),
                Step::Failed { error } => return Err(error),
            }
        }
    }

    fn delete(&mut self, first: Step<RemoveOp, Durability>) -> Result<Durability, StoreError> {
        let mut step = first;
        loop {
            match step {
                Step::Perform { state, action } => step = state.step(self.perform(action)),
                Step::Done { value } => return Ok(value),
                Step::Failed { error } => return Err(error),
            }
        }
    }
}

fn started() -> (MemDisk, CommandController) {
    let mut disk = MemDisk::new();
    let store = disk.start(CommandController::new(b"/data", 1700000000)).unwrap();
    disk.actions.clear();
    (disk, store)
}

const LOG: &[u8] = b"/data/wol/1700000000";

#[test]
fn store_starts_with_an_empty_log_in_wol() {
    let mut disk = MemDisk::new();
    let store = disk.start(CommandController::new(b"/data", 1700000000)).unwrap();
    assert_eq!(
        disk.actions,
        vec![
            IoAction::CreateDir { path: b"/data/wol".to_vec() },
            IoAction::ListDir { path: b"/data/wol".to_vec() },
            IoAction::CreateNew { path: LOG.to_vec() },
        ]
    );
    assert_eq!(store.directory(), b"/data");
    assert_eq!(store.log_path(), LOG);
    assert_eq!(disk.files.get(LOG), Some(&Vec::new()));
}

#[test]
fn second_store_in_the_same_second_does_not_start() {
    let mut disk = MemDisk::new();
    disk.start(CommandController::new(b"/data", 1700000000)).unwrap();
    assert_eq!(
        disk.start(CommandController::new(b"/data", 1700000000)),
        Err(StoreError::IoFailure {
            step: IoStep::CreateLog,
            path: LOG.to_vec(),
            kind: IoErrorKind::AlreadyExists,
        })
    );
    assert!(disk.start(CommandController::new(b"/data", 1700000001)).is_ok());
}

#[test]
fn set_get_delete_scenario() {
    let (mut disk, store) = started();
    assert_eq!(disk.set(store.set("a", &[1, 2, 3])), Ok(Durability::PowerLossAtomic));
    assert_eq!(disk.get(store.get("a")), Ok(Some(vec![1, 2, 3])));
    assert_eq!(disk.delete(store.delete("a")), Ok(Durability::PowerLossAtomic));
    assert_eq!(disk.get(store.get("a")), Ok(None));
    assert_eq!(
        disk.delete(store.delete("a")),
        Err(StoreError::NotFound { path: b"/data/a".to_vec() })
    );
}

#[test]
fn get_of_a_key_never_set_is_absent() {
    let (mut disk, store) = started();
    assert_eq!(disk.get(store.get("nonexistent")), Ok(None));
    assert_eq!(disk.actions, vec![IoAction::ReadAll { path: b"/data/nonexistent".to_vec() }]);
    assert!(!disk.files.contains_key(b"/data/nonexistent".as_slice()));
}

#[test]
fn get_passes_on_every_other_failure() {
    let (_, store) = started();
    match store.get("a") {
        Step::Perform { state, .. } => assert_eq!(
            state.step(IoEvent::Failed { kind: IoErrorKind::PermissionDenied }),
            Step::Failed {
                error: StoreError::IoFailure {
                    step: IoStep::Read,
                    path: b"/data/a".to_vec(),
                    kind: IoErrorKind::PermissionDenied,
                },
            }
        ),
        other => panic!("the get ended early: {:?}", other),
    }
}

#[test]
fn round_trip_of_empty_and_large_values() {
    let (mut disk, store) = started();
    assert!(disk.set(store.set("empty", &[])).is_ok());
    assert_eq!(disk.get(store.get("empty")), Ok(Some(vec![])));
    let small: Vec<u8> = (0..200u16).map(|i| (i % 251) as u8).collect();
    assert!(disk.set(store.set("k", &small)).is_ok());
    assert_eq!(disk.get(store.get("k")), Ok(Some(small)));
}

#[test]
fn repeated_set_leaves_the_value() {
    let (mut disk, store) = started();
    assert!(disk.set(store.set("a", &[1])).is_ok());
    assert!(disk.set(store.set("a", &[1])).is_ok());
    assert_eq!(disk.get(store.get("a")), Ok(Some(vec![1])));
    assert!(disk.set(store.set("a", &[2, 2])).is_ok());
    assert_eq!(disk.get(store.get("a")), Ok(Some(vec![2, 2])));
}

#[test]
fn set_leaves_no_temporary_file() {
    let (mut disk, store) = started();
    assert!(disk.set(store.set("a", &[1])).is_ok());
    let mut names: Vec<Vec<u8>> = disk.files.keys().cloned().collect();
    names.sort();
    assert_eq!(names, vec![b"/data/a".to_vec(), LOG.to_vec()]);
}

#[test]
fn set_logs_before_it_writes() {
    let (mut disk, store) = started();
    let suffix = b"ABCDEFGHabcd0123";
    let temp = b"/data/a.tmp.ABCDEFGHabcd0123".to_vec();
    let event = WriteEvent::Write("a".to_string(), vec![1, 2, 3]);
    assert!(disk.set(store.set_with_suffix("a", &[1, 2, 3], suffix)).is_ok());
    assert_eq!(
        disk.actions,
        vec![
            IoAction::Encode { event: event.clone() },
            IoAction::Append {
                path: LOG.to_vec(),
                bytes: dirkv::record::frame_record(&encode(&event)).unwrap(),
            },
            IoAction::SyncFile { path: LOG.to_vec() },
            IoAction::CreateTruncate { path: temp.clone() },
            IoAction::WriteAll { path: temp.clone(), bytes: vec![1, 2, 3] },
            IoAction::SyncFile { path: temp.clone() },
            IoAction::Rename { from: temp, to: b"/data/a".to_vec() },
            IoAction::SyncDir { path: b"/data/".to_vec() },
        ]
    );
}

#[test]
fn every_set_adds_a_valid_record() {
    let (mut disk, store) = started();
    assert!(disk.set(store.set("a", &[1, 2, 3])).is_ok());
    assert!(disk.set(store.set("b", &[])).is_ok());
    let scan = validate_log(disk.files.get(LOG).unwrap());
    assert_eq!(scan.corrupted_at, None);
    assert_eq!(
        scan.records,
        vec![
            encode(&WriteEvent::Write("a".to_string(), vec![1, 2, 3])),
            encode(&WriteEvent::Write("b".to_string(), vec![])),
        ]
    );
}

#[test]
fn flipped_byte_in_the_log_is_found() {
    let (mut disk, store) = started();
    assert!(disk.set(store.set("a", &[1, 2, 3])).is_ok());
    let log = disk.files.get(LOG).unwrap().clone();
    let mut index: usize = 0;
    while index < log.len() {
        let mut changed = log.clone();
        changed[index] ^= 0x80;
        assert_eq!(validate_log(&changed).corrupted_at, Some(0));
        index += 1;
    }
}

#[test]
fn set_that_cannot_log_touches_no_key_file() {
    let (mut disk, store) = started();
    assert!(disk.set(store.set("a", &[1])).is_ok());
    disk.files.remove(LOG);
    disk.actions.clear();
    assert_eq!(
        disk.set(store.set("a", &[2])),
        Err(StoreError::IoFailure {
            step: IoStep::AppendLog,
            path: LOG.to_vec(),
            kind: IoErrorKind::NotFound,
        })
    );
    assert_eq!(disk.actions.len(), 2);
    assert_eq!(disk.get(store.get("a")), Ok(Some(vec![1])));
}

#[test]
fn set_of_an_event_too_long_for_a_record_fails() {
    let (mut disk, store) = started();
    let value = vec![0u8; 300];
    assert_eq!(
        disk.set(store.set("a", &value)),
        Err(StoreError::PayloadTooLarge { len: 303 })
    );
    assert_eq!(disk.get(store.get("a")), Ok(None));
    assert_eq!(disk.files.get(LOG), Some(&Vec::new()));
}

#[test]
fn stop_between_log_and_rename_keeps_the_record_and_the_old_value() {
    let (mut disk, store) = started();
    assert!(disk.set(store.set("a", &[1])).is_ok());
    let mut stop_after: usize = 3;
    while stop_after < 7 {
        let (mut disk, store) = started();
        assert!(disk.set(store.set("a", &[1])).is_ok());
        assert_eq!(disk.set_some(store.set("a", &[2, 2]), stop_after), None);
        let scan = validate_log(disk.files.get(LOG).unwrap());
        assert_eq!(scan.corrupted_at, None);
        assert_eq!(
            scan.records,
            vec![
                encode(&WriteEvent::Write("a".to_string(), vec![1])),
                encode(&WriteEvent::Write("a".to_string(), vec![2, 2])),
            ]
        );
        assert_eq!(disk.get(store.get("a")), Ok(Some(vec![1])));
        stop_after += 1;
    }
    assert_eq!(disk.get(store.get("a")), Ok(Some(vec![1])));
}

#[test]
fn reader_sees_the_old_or_the_new_value_at_every_stop() {
    let mut stop_after: usize = 0;
    while stop_after <= 8 {
        let (mut disk, store) = started();
        assert!(disk.set(store.set("a", &[1, 1, 1])).is_ok());
        let _ = disk.set_some(store.set("a", &[2, 2]), stop_after);
        let seen = disk.get(store.get("a")).unwrap();
        if stop_after < 7 {
            assert_eq!(seen, Some(vec![1, 1, 1]));
        } else {
            assert_eq!(seen, Some(vec![2, 2]));
        }
        stop_after += 1;
    }
}

#[test]
fn delete_is_logged_before_the_file_is_removed() {
    let (mut disk, store) = started();
    assert!(disk.set(store.set("a", &[1])).is_ok());
    disk.actions.clear();
    let event = WriteEvent::Delete("a".to_string());
    assert_eq!(disk.delete(store.delete("a")), Ok(Durability::PowerLossAtomic));
    assert_eq!(
        disk.actions,
        vec![
            IoAction::Encode { event: event.clone() },
            IoAction::Append { path: LOG.to_vec(), bytes: frame_record(&encode(&event)).unwrap() },
            IoAction::SyncFile { path: LOG.to_vec() },
            IoAction::Remove { path: b"/data/a".to_vec() },
            IoAction::SyncDir { path: b"/data/".to_vec() },
        ]
    );
    let scan = validate_log(disk.files.get(LOG).unwrap());
    assert_eq!(
        scan.records,
        vec![encode(&WriteEvent::Write("a".to_string(), vec![1])), encode(&event)]
    );
}

#[test]
fn delete_that_cannot_log_leaves_the_file() {
    let (mut disk, store) = started();
    assert!(disk.set(store.set("a", &[1])).is_ok());
    disk.files.remove(LOG);
    assert_eq!(
        disk.delete(store.delete("a")),
        Err(StoreError::IoFailure {
            step: IoStep::AppendLog,
            path: LOG.to_vec(),
            kind: IoErrorKind::NotFound,
        })
    );
    assert_eq!(disk.get(store.get("a")), Ok(Some(vec![1])));
}

fn restart(disk: &mut MemDisk, secs: u64) -> Result<CommandController, StoreError> {
    disk.actions.clear();
    disk.start(CommandController::new(b"/data", secs))
}

fn touches_key_files(actions: &[IoAction]) -> bool {
    actions.iter().any(|action| {
        matches!(
            action,
            IoAction::CreateTruncate { .. } | IoAction::WriteAll { .. } | IoAction::Rename { .. }
        )
    })
}

#[test]
fn restart_applies_a_write_that_was_logged_but_not_renamed() {
    let mut stop_after: usize = 3;
    while stop_after < 7 {
        let (mut disk, store) = started();
        assert!(disk.set(store.set("a", &[1])).is_ok());
        assert_eq!(disk.set_some(store.set("a", &[2, 2]), stop_after), None);
        assert_eq!(disk.get(store.get("a")), Ok(Some(vec![1])));
        let store = restart(&mut disk, 1700000001).unwrap();
        assert_eq!(disk.get(store.get("a")), Ok(Some(vec![2, 2])));
        stop_after += 1;
    }
}

#[test]
fn restart_applies_a_first_write_whose_file_is_missing() {
    let (mut disk, store) = started();
    assert_eq!(disk.set_some(store.set("a", &[5]), 3), None);
    assert_eq!(disk.get(store.get("a")), Ok(None));
    let store = restart(&mut disk, 1700000001).unwrap();
    assert_eq!(disk.get(store.get("a")), Ok(Some(vec![5])));
}

#[test]
fn restart_keeps_a_deleted_key_deleted() {
    let (mut disk, store) = started();
    assert!(disk.set(store.set("a", &[1])).is_ok());
    assert!(disk.set(store.set("b", &[2])).is_ok());
    assert!(disk.delete(store.delete("a")).is_ok());
    let store = restart(&mut disk, 1700000001).unwrap();
    assert_eq!(disk.get(store.get("a")), Ok(None));
    assert_eq!(disk.get(store.get("b")), Ok(Some(vec![2])));
}

#[test]
fn restart_applies_a_delete_that_was_logged_but_not_done() {
    let (mut disk, store) = started();
    assert!(disk.set(store.set("a", &[1])).is_ok());
    let mut step = store.delete("a");
    let mut done_actions: usize = 0;
    while done_actions < 3 {
        step = match step {
            Step::Perform { state, action } => state.step(disk.perform(action)),
            other => panic!("the delete ended early: {:?}", other),
        };
        done_actions += 1;
    }
    assert_eq!(disk.get(store.get("a")), Ok(Some(vec![1])));
    let store = restart(&mut disk, 1700000001).unwrap();
    assert_eq!(disk.get(store.get("a")), Ok(None));
}

#[test]
fn restart_leaves_files_that_agree_with_the_log() {
    let (mut disk, store) = started();
    assert!(disk.set(store.set("a", &[1])).is_ok());
    assert!(disk.set(store.set("b", &[2])).is_ok());
    let before = disk.files.clone();
    let store = restart(&mut disk, 1700000001).unwrap();
    assert!(!touches_key_files(&disk.actions));
    assert!(!disk.actions.iter().any(|action| matches!(action, IoAction::Remove { .. })));
    assert_eq!(disk.files.get(b"/data/a".as_slice()), before.get(b"/data/a".as_slice()));
    assert_eq!(disk.files.get(b"/data/b".as_slice()), before.get(b"/data/b".as_slice()));
    assert_eq!(disk.files.get(LOG), before.get(LOG));
    assert_eq!(store.log_path(), b"/data/wol/1700000001");
    assert_eq!(disk.files.get(b"/data/wol/1700000001".as_slice()), Some(&Vec::new()));
}

#[test]
fn restart_replays_the_logs_in_the_order_of_their_stamps() {
    let mut disk = MemDisk::new();
    let older = frame_record(&encode(&WriteEvent::Write("a".to_string(), vec![1]))).unwrap();
    let newer = frame_record(&encode(&WriteEvent::Write("a".to_string(), vec![2]))).unwrap();
    disk.files.insert(b"/data/wol/9".to_vec(), older);
    disk.files.insert(b"/data/wol/10".to_vec(), newer);
    let store = disk.start(CommandController::new(b"/data", 11)).unwrap();
    let reads: Vec<IoAction> = disk
        .actions
        .iter()
        .filter(|action| matches!(action, IoAction::ReadAll { path } if path.starts_with(b"/data/wol/")))
        .cloned()
        .collect();
    assert_eq!(
        reads,
        vec![
            IoAction::ReadAll { path: b"/data/wol/9".to_vec() },
            IoAction::ReadAll { path: b"/data/wol/10".to_vec() },
        ]
    );
    assert_eq!(disk.get(store.get("a")), Ok(Some(vec![2])));
}

#[test]
fn restart_ignores_names_that_are_no_stamps() {
    let mut disk = MemDisk::new();
    let record = frame_record(&encode(&WriteEvent::Write("a".to_string(), vec![1]))).unwrap();
    disk.files.insert(b"/data/wol/notes".to_vec(), record.clone());
    disk.files.insert(b"/data/wol/007".to_vec(), record.clone());
    disk.files.insert(b"/data/wol/7.tmp.ABCDEFGHabcd0123".to_vec(), record);
    let store = disk.start(CommandController::new(b"/data", 11)).unwrap();
    assert_eq!(disk.get(store.get("a")), Ok(None));
}

#[test]
fn restart_stops_a_log_at_its_first_corrupted_record_and_goes_on_with_the_next() {
    let mut disk = MemDisk::new();
    let mut first = frame_record(&encode(&WriteEvent::Write("a".to_string(), vec![1]))).unwrap();
    let mut torn = frame_record(&encode(&WriteEvent::Write("b".to_string(), vec![2]))).unwrap();
    torn[68] ^= 0xff;
    first.extend(torn);
    first.extend(frame_record(&encode(&WriteEvent::Write("c".to_string(), vec![3]))).unwrap());
    disk.files.insert(b"/data/wol/5".to_vec(), first);
    disk.files.insert(
        b"/data/wol/6".to_vec(),
        frame_record(&encode(&WriteEvent::Write("d".to_string(), vec![4]))).unwrap(),
    );
    let store = disk.start(CommandController::new(b"/data", 11)).unwrap();
    assert_eq!(disk.get(store.get("a")), Ok(Some(vec![1])));
    assert_eq!(disk.get(store.get("b")), Ok(None));
    assert_eq!(disk.get(store.get("c")), Ok(None));
    assert_eq!(disk.get(store.get("d")), Ok(Some(vec![4])));
}

#[test]
fn restart_fails_on_a_valid_record_that_holds_no_event() {
    let mut disk = MemDisk::new();
    disk.files.insert(b"/data/wol/5".to_vec(), frame_record(b"?").unwrap());
    assert_eq!(disk.start(CommandController::new(b"/data", 11)), Err(StoreError::DecodeFailed));
    assert!(!disk.files.contains_key(b"/data/wol/11".as_slice()));
}

#[test]
fn restart_with_a_given_suffix_writes_through_that_temporary_file() {
    let mut disk = MemDisk::new();
    disk.files.insert(
        b"/data/wol/5".to_vec(),
        frame_record(&encode(&WriteEvent::Write("a".to_string(), vec![1]))).unwrap(),
    );
    let temp = b"/data/a.tmp.ABCDEFGHabcd0123".to_vec();
    let first = CommandController::new_with_suffix(b"/data", 11, b"ABCDEFGHabcd0123");
    assert!(disk.start(first).is_ok());
    assert_eq!(
        disk.actions,
        vec![
            IoAction::CreateDir { path: b"/data/wol".to_vec() },
            IoAction::ListDir { path: b"/data/wol".to_vec() },
            IoAction::ReadAll { path: b"/data/wol/5".to_vec() },
            IoAction::Decode { payload: encode(&WriteEvent::Write("a".to_string(), vec![1])) },
            IoAction::ReadAll { path: b"/data/a".to_vec() },
            IoAction::CreateTruncate { path: temp.clone() },
            IoAction::WriteAll { path: temp.clone(), bytes: vec![1] },
            IoAction::SyncFile { path: temp.clone() },
            IoAction::Rename { from: temp, to: b"/data/a".to_vec() },
            IoAction::SyncDir { path: b"/data/".to_vec() },
            IoAction::CreateNew { path: b"/data/wol/11".to_vec() },
        ]
    );
}

#[test]
fn keys_beyond_ascii_round_trip() {
    let (mut disk, store) = started();
    assert!(disk.set(store.set("clé", &[7])).is_ok());
    assert_eq!(disk.get(store.get("clé")), Ok(Some(vec![7])));
    assert!(disk.files.contains_key("/data/clé".as_bytes()));
    assert_eq!(disk.get(store.get("cle")), Ok(None));
}

#[test]
fn set_of_one_key_leaves_the_others() {
    let (mut disk, store) = started();
    assert!(disk.set(store.set("a", &[1])).is_ok());
    assert!(disk.set(store.set("b", &[2])).is_ok());
    assert!(disk.delete(store.delete("a")).is_ok());
    assert_eq!(disk.get(store.get("a")), Ok(None));
    assert_eq!(disk.get(store.get("b")), Ok(Some(vec![2])));
}

#[test]
fn restart_applies_only_the_last_event_of_each_key() {
    let mut disk = MemDisk::new();
    let mut log: Vec<u8> = Vec::new();
    log.extend(frame_record(&encode(&WriteEvent::Write("a".to_string(), vec![1]))).unwrap());
    log.extend(frame_record(&encode(&WriteEvent::Delete("b".to_string()))).unwrap());
    log.extend(frame_record(&encode(&WriteEvent::Write("a".to_string(), vec![2]))).unwrap());
    log.extend(frame_record(&encode(&WriteEvent::Write("b".to_string(), vec![3]))).unwrap());
    log.extend(frame_record(&encode(&WriteEvent::Delete("c".to_string()))).unwrap());
    disk.files.insert(b"/data/wol/5".to_vec(), log);
    disk.files.insert(b"/data/c".to_vec(), vec![9]);
    let store = disk.start(CommandController::new(b"/data", 11)).unwrap();
    let written: Vec<Vec<u8>> = disk
        .actions
        .iter()
        .filter_map(|action| match action {
            IoAction::WriteAll { bytes, .. } => Some(bytes.clone()),
            _ => None,
        })
        .collect();
    assert_eq!(written, vec![vec![2], vec![3]]);
    let removed: Vec<Vec<u8>> = disk
        .actions
        .iter()
        .filter_map(|action| match action {
            IoAction::Remove { path } => Some(path.clone()),
            _ => None,
        })
        .collect();
    assert_eq!(removed, vec![b"/data/c".to_vec()]);
    assert_eq!(disk.get(store.get("a")), Ok(Some(vec![2])));
    assert_eq!(disk.get(store.get("b")), Ok(Some(vec![3])));
    assert_eq!(disk.get(store.get("c")), Ok(None));
}

#[test]
fn restart_after_many_sets_of_one_key_touches_nothing() {
    let (mut disk, store) = started();
    assert!(disk.set(store.set("a", &[1])).is_ok());
    assert!(disk.set(store.set("a", &[2])).is_ok());
    assert!(disk.delete(store.delete("a")).is_ok());
    assert!(disk.set(store.set("a", &[3])).is_ok());
    let store = restart(&mut disk, 1700000001).unwrap();
    assert!(!touches_key_files(&disk.actions));
    assert!(!disk.actions.iter().any(|action| matches!(action, IoAction::Remove { .. })));
    assert_eq!(disk.get(store.get("a")), Ok(Some(vec![3])));
}

#[test]
fn restart_that_reads_no_event_back_touches_no_key_file() {
    let mut disk = MemDisk::new();
    let mut log = frame_record(&encode(&WriteEvent::Write("a".to_string(), vec![1]))).unwrap();
    log.extend(frame_record(b"?").unwrap());
    disk.files.insert(b"/data/wol/5".to_vec(), log);
    assert_eq!(disk.start(CommandController::new(b"/data", 11)), Err(StoreError::DecodeFailed));
    assert!(!touches_key_files(&disk.actions));
    assert!(!disk.files.contains_key(b"/data/a".as_slice()));
}

fn first_state(step: Step<Startup, CommandController>) -> (Startup, IoAction) {
    match step {
        Step::Perform { state, action } => (state, action),
        other => panic!("the start ended early: {:?}", other),
    }
}

#[test]
fn start_fails_where_the_logs_cannot_be_listed() {
    let (state, _) = first_state(CommandController::new(b"/data", 5));
    let (state, action) = first_state(state.step(IoEvent::Failed { kind: IoErrorKind::AlreadyExists }));
    assert_eq!(action, IoAction::ListDir { path: b"/data/wol".to_vec() });
    assert_eq!(
        state.step(IoEvent::Failed { kind: IoErrorKind::PermissionDenied }),
        Step::Failed {
            error: StoreError::IoFailure {
                step: IoStep::ListLogs,
                path: b"/data/wol".to_vec(),
                kind: IoErrorKind::PermissionDenied,
            },
        }
    );
}

#[test]
fn start_fails_where_the_directory_of_the_logs_cannot_be_made() {
    let (state, action) = first_state(CommandController::new(b"/data", 5));
    assert_eq!(action, IoAction::CreateDir { path: b"/data/wol".to_vec() });
    assert_eq!(
        state.step(IoEvent::Failed { kind: IoErrorKind::PermissionDenied }),
        Step::Failed {
            error: StoreError::IoFailure {
                step: IoStep::CreateLogDir,
                path: b"/data/wol".to_vec(),
                kind: IoErrorKind::PermissionDenied,
            },
        }
    );
}

#[test]
fn start_fails_where_a_log_cannot_be_read() {
    let (state, _) = first_state(CommandController::new(b"/data", 5));
    let (state, _) = first_state(state.step(done()));
    let (state, action) = first_state(state.step(IoEvent::Completed { data: b"3/".to_vec() }));
    assert_eq!(action, IoAction::ReadAll { path: b"/data/wol/3".to_vec() });
    assert_eq!(
        state.step(IoEvent::Failed { kind: IoErrorKind::PermissionDenied }),
        Step::Failed {
            error: StoreError::IoFailure {
                step: IoStep::Read,
                path: b"/data/wol/3".to_vec(),
                kind: IoErrorKind::PermissionDenied,
            },
        }
    );
}

#[test]
fn start_fails_where_a_replayed_write_fails() {
    let (state, _) = first_state(CommandController::new_with_suffix(b"/data", 5, b"ABCDEFGHabcd0123"));
    let (state, _) = first_state(state.step(done()));
    let (state, _) = first_state(state.step(IoEvent::Completed { data: b"3/".to_vec() }));
    let log = frame_record(b"payload").unwrap();
    let (state, action) = first_state(state.step(IoEvent::Completed { data: log }));
    assert_eq!(action, IoAction::Decode { payload: b"payload".to_vec() });
    let event = WriteEvent::Write("a".to_string(), vec![1]);
    let (state, action) = first_state(state.step(IoEvent::Decoded { event }));
    assert_eq!(action, IoAction::ReadAll { path: b"/data/a".to_vec() });
    let (state, action) = first_state(state.step(not_found()));
    let temp = b"/data/a.tmp.ABCDEFGHabcd0123".to_vec();
    assert_eq!(action, IoAction::CreateTruncate { path: temp.clone() });
    assert_eq!(
        state.step(IoEvent::Failed { kind: IoErrorKind::PermissionDenied }),
        Step::Failed {
            error: StoreError::IoFailure {
                step: IoStep::CreateTemp,
                path: temp,
                kind: IoErrorKind::PermissionDenied,
            },
        }
    );
}

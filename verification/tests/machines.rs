use dirkv::error::Durability;
use dirkv::error::IoErrorKind;
use dirkv::error::IoStep;
use dirkv::error::StoreError;
use dirkv::io::IoAction;
use dirkv::io::IoEvent;
use dirkv::io::Step;
use dirkv::persist::create_temp_file;
use dirkv::persist::del::delete;
use dirkv::persist::fsync_parent_dir;
use dirkv::persist::read::file_error;
use dirkv::persist::read::read;
use dirkv::persist::write::begin_write;
use dirkv::persist::write::bwrite1;
use dirkv::persist::write::bwrite2;
use dirkv::persist::write::AtomicWrite;
use dirkv::persist::write::WriteStage;
use dirkv::record::frame_record;
use dirkv::wol::AppendOp;
use dirkv::wol::OpenLog;
use dirkv::wol::WOLEngine;
use dirkv::wol::WriteEvent;

const SUFFIX: &[u8] = b"ABCDEFGHabcd0123";
const TEMP: &[u8] = b"/data/a.tmp.ABCDEFGHabcd0123";

fn done() -> IoEvent {
    IoEvent::Completed { data: Vec::new() }
}

fn failed(kind: IoErrorKind) -> IoEvent {
    IoEvent::Failed { kind }
}

fn take_write(step: Step<AtomicWrite, Durability>) -> (AtomicWrite, IoAction) {
    match step {
        Step::Perform { state, action } => (state, action),
        other => panic!("the write ended early: {:?}", other),
    }
}

fn take_append(step: Step<AppendOp, ()>) -> (AppendOp, IoAction) {
    match step {
        Step::Perform { state, action } => (state, action),
        other => panic!("the append ended early: {:?}", other),
    }
}

fn take_open(step: Step<OpenLog, WOLEngine>) -> (OpenLog, IoAction) {
    match step {
        Step::Perform { state, action } => (state, action),
        other => panic!("the start ended early: {:?}", other),
    }
}

fn is_alphanumeric(bytes: &[u8]) -> bool {
    bytes.iter().all(|b| b.is_ascii_alphanumeric())
}

#[test]
fn write_asks_for_create_write_sync_rename_sync_dir() {
    let (state, action) = take_write(begin_write(b"/data/a", &[1, 2, 3], SUFFIX, true));
    assert_eq!(action, IoAction::CreateTruncate { path: TEMP.to_vec() });
    let (state, action) = take_write(state.step(done()));
    assert_eq!(action, IoAction::WriteAll { path: TEMP.to_vec(), bytes: vec![1, 2, 3] });
    let (state, action) = take_write(state.step(done()));
    assert_eq!(action, IoAction::SyncFile { path: TEMP.to_vec() });
    let (state, action) = take_write(state.step(done()));
    assert_eq!(action, IoAction::Rename { from: TEMP.to_vec(), to: b"/data/a".to_vec() });
    let (state, action) = take_write(state.step(done()));
    assert_eq!(action, IoAction::SyncDir { path: b"/data/".to_vec() });
    assert_eq!(state.step(done()), Step::Done { value: Durability::PowerLossAtomic });
}

#[test]
fn write_without_directory_flush_ends_at_the_rename() {
    let (state, _) = take_write(begin_write(b"/data/a", &[1], SUFFIX, false));
    let (state, _) = take_write(state.step(done()));
    let (state, _) = take_write(state.step(done()));
    let (state, action) = take_write(state.step(done()));
    assert_eq!(action, IoAction::Rename { from: TEMP.to_vec(), to: b"/data/a".to_vec() });
    assert_eq!(state.step(done()), Step::Done { value: Durability::ReadersWriterAtomic });
}

#[test]
fn failed_directory_flush_only_lowers_the_guarantee() {
    let (state, _) = take_write(begin_write(b"/data/a", &[1], SUFFIX, true));
    let (state, _) = take_write(state.step(done()));
    let (state, _) = take_write(state.step(done()));
    let (state, _) = take_write(state.step(done()));
    let (state, _) = take_write(state.step(done()));
    assert_eq!(
        state.step(failed(IoErrorKind::Other)),
        Step::Done { value: Durability::ReadersWriterAtomic }
    );
}

#[test]
fn write_failure_names_the_step_and_the_temp_file() {
    let steps = [IoStep::CreateTemp, IoStep::WriteTemp, IoStep::SyncTemp, IoStep::Rename];
    let mut fail_at: usize = 0;
    while fail_at < steps.len() {
        let (mut state, _) = take_write(begin_write(b"/data/a", &[1, 2], SUFFIX, true));
        let mut i: usize = 0;
        while i < fail_at {
            state = take_write(state.step(done())).0;
            i += 1;
        }
        assert_eq!(
            state.step(failed(IoErrorKind::PermissionDenied)),
            Step::Failed {
                error: StoreError::IoFailure {
                    step: steps[fail_at],
                    path: TEMP.to_vec(),
                    kind: IoErrorKind::PermissionDenied,
                },
            }
        );
        fail_at += 1;
    }
}

#[test]
fn write_stage_names_its_step() {
    assert_eq!(WriteStage::CreatingTemp.io_step(), IoStep::CreateTemp);
    assert_eq!(WriteStage::WritingData.io_step(), IoStep::WriteTemp);
    assert_eq!(WriteStage::SyncingData.io_step(), IoStep::SyncTemp);
    assert_eq!(WriteStage::Renaming.io_step(), IoStep::Rename);
    assert_eq!(WriteStage::SyncingParent.io_step(), IoStep::SyncDir);
}

#[test]
fn empty_value_is_written_as_it_is() {
    let (state, _) = take_write(begin_write(b"/data/a", &[], SUFFIX, true));
    let (_, action) = take_write(state.step(done()));
    assert_eq!(action, IoAction::WriteAll { path: TEMP.to_vec(), bytes: vec![] });
}

#[test]
fn temp_file_gets_sixteen_random_letters_and_digits() {
    let (temp, action) = create_temp_file(b"/data/a.txt");
    assert_eq!(action, IoAction::CreateTruncate { path: temp.clone() });
    assert_eq!(temp.len(), b"/data/a.tmp.".len() + 16);
    assert_eq!(&temp[..12], b"/data/a.tmp.");
    assert!(is_alphanumeric(&temp[12..]));
    let (other, _) = create_temp_file(b"/data/a.txt");
    assert_ne!(temp, other);
}

#[test]
fn bwrite2_flushes_the_directory_and_bwrite1_does_not() {
    let (state, action) = take_write(bwrite2(b"/data/a", &[9]));
    let temp = match action {
        IoAction::CreateTruncate { path } => path,
        other => panic!("not a create: {:?}", other),
    };
    assert_eq!(&temp[..12], b"/data/a.tmp.");
    assert_eq!(temp.len(), 28);
    assert!(is_alphanumeric(&temp[12..]));
    let (state, action) = take_write(state.step(done()));
    assert_eq!(action, IoAction::WriteAll { path: temp.clone(), bytes: vec![9] });
    let (state, action) = take_write(state.step(done()));
    assert_eq!(action, IoAction::SyncFile { path: temp.clone() });
    let (state, action) = take_write(state.step(done()));
    assert_eq!(action, IoAction::Rename { from: temp.clone(), to: b"/data/a".to_vec() });
    let (state, action) = take_write(state.step(done()));
    assert_eq!(action, IoAction::SyncDir { path: b"/data/".to_vec() });
    assert_eq!(state.step(done()), Step::Done { value: Durability::PowerLossAtomic });

    let (state, _) = take_write(bwrite1(b"/data/a", &[9]));
    let (state, _) = take_write(state.step(done()));
    let (state, _) = take_write(state.step(done()));
    let (state, _) = take_write(state.step(done()));
    assert_eq!(state.step(done()), Step::Done { value: Durability::ReadersWriterAtomic });
}

#[test]
fn parent_flush_names_the_directory() {
    assert_eq!(fsync_parent_dir(b"/data/a"), IoAction::SyncDir { path: b"/data/".to_vec() });
    assert_eq!(fsync_parent_dir(b"a"), IoAction::SyncDir { path: b".".to_vec() });
}

#[test]
fn read_ends_with_all_the_bytes() {
    match read(b"/data/a") {
        Step::Perform { state, action } => {
            assert_eq!(action, IoAction::ReadAll { path: b"/data/a".to_vec() });
            assert_eq!(
                state.step(IoEvent::Completed { data: vec![1, 2, 3] }),
                Step::Done { value: vec![1, 2, 3] }
            );
        },
        other => panic!("the read ended early: {:?}", other),
    }
}

#[test]
fn read_tells_a_missing_file_from_other_failures() {
    match read(b"/data/a") {
        Step::Perform { state, .. } => assert_eq!(
            state.step(failed(IoErrorKind::NotFound)),
            Step::Failed { error: StoreError::NotFound { path: b"/data/a".to_vec() } }
        ),
        other => panic!("the read ended early: {:?}", other),
    }
    match read(b"/data/a") {
        Step::Perform { state, .. } => assert_eq!(
            state.step(failed(IoErrorKind::PermissionDenied)),
            Step::Failed {
                error: StoreError::IoFailure {
                    step: IoStep::Read,
                    path: b"/data/a".to_vec(),
                    kind: IoErrorKind::PermissionDenied,
                },
            }
        ),
        other => panic!("the read ended early: {:?}", other),
    }
    assert_eq!(
        file_error(IoStep::Remove, b"p".to_vec(), IoErrorKind::NotFound),
        StoreError::NotFound { path: b"p".to_vec() }
    );
}

#[test]
fn delete_removes_then_flushes_the_directory() {
    match delete(b"/data/a") {
        Step::Perform { state, action } => {
            assert_eq!(action, IoAction::Remove { path: b"/data/a".to_vec() });
            match state.step(done()) {
                Step::Perform { state, action } => {
                    assert_eq!(action, IoAction::SyncDir { path: b"/data/".to_vec() });
                    assert_eq!(
                        state.step(failed(IoErrorKind::Other)),
                        Step::Done { value: Durability::ReadersWriterAtomic }
                    );
                },
                other => panic!("the removal ended early: {:?}", other),
            }
        },
        other => panic!("the removal ended early: {:?}", other),
    }
}

#[test]
fn delete_of_a_missing_file_is_not_found() {
    match delete(b"/data/a") {
        Step::Perform { state, .. } => assert_eq!(
            state.step(failed(IoErrorKind::NotFound)),
            Step::Failed { error: StoreError::NotFound { path: b"/data/a".to_vec() } }
        ),
        other => panic!("the removal ended early: {:?}", other),
    }
    match delete(b"/data/a") {
        Step::Perform { state, .. } => assert_eq!(
            state.step(failed(IoErrorKind::Other)),
            Step::Failed {
                error: StoreError::IoFailure {
                    step: IoStep::Remove,
                    path: b"/data/a".to_vec(),
                    kind: IoErrorKind::Other,
                },
            }
        ),
        other => panic!("the removal ended early: {:?}", other),
    }
}

#[test]
fn engine_creates_the_directory_then_a_new_log() {
    let (state, action) = take_open(WOLEngine::new(b"/data/wol", 1700000000));
    assert_eq!(action, IoAction::CreateDir { path: b"/data/wol".to_vec() });
    let (state, action) = take_open(state.step(done()));
    assert_eq!(action, IoAction::CreateNew { path: b"/data/wol/1700000000".to_vec() });
    match state.step(done()) {
        Step::Done { value } => assert_eq!(value.log_path(), b"/data/wol/1700000000"),
        other => panic!("no engine: {:?}", other),
    }
}

#[test]
fn engine_accepts_a_directory_that_exists() {
    let (state, _) = take_open(WOLEngine::new(b"/data/wol", 5));
    let (_, action) = take_open(state.step(failed(IoErrorKind::AlreadyExists)));
    assert_eq!(action, IoAction::CreateNew { path: b"/data/wol/5".to_vec() });
}

#[test]
fn engine_fails_where_the_directory_cannot_be_made() {
    let (state, _) = take_open(WOLEngine::new(b"/data/wol", 5));
    assert_eq!(
        state.step(failed(IoErrorKind::PermissionDenied)),
        Step::Failed {
            error: StoreError::IoFailure {
                step: IoStep::CreateLogDir,
                path: b"/data/wol".to_vec(),
                kind: IoErrorKind::PermissionDenied,
            },
        }
    );
}

#[test]
fn engine_fails_where_the_log_exists() {
    let (state, _) = take_open(WOLEngine::new(b"/data/wol", 5));
    let (state, _) = take_open(state.step(done()));
    assert_eq!(
        state.step(failed(IoErrorKind::AlreadyExists)),
        Step::Failed {
            error: StoreError::IoFailure {
                step: IoStep::CreateLog,
                path: b"/data/wol/5".to_vec(),
                kind: IoErrorKind::AlreadyExists,
            },
        }
    );
}

fn engine() -> WOLEngine {
    let (state, _) = take_open(WOLEngine::new(b"/data/wol", 5));
    let (state, _) = take_open(state.step(done()));
    match state.step(done()) {
        Step::Done { value } => value,
        other => panic!("no engine: {:?}", other),
    }
}

#[test]
fn append_encodes_frames_writes_and_flushes() {
    let event = WriteEvent::Write("a".to_string(), vec![1, 2, 3]);
    let (state, action) = take_append(engine().write_event(event.clone()));
    assert_eq!(action, IoAction::Encode { event });
    let (state, action) = take_append(state.step(IoEvent::Completed { data: b"hello".to_vec() }));
    assert_eq!(
        action,
        IoAction::Append {
            path: b"/data/wol/5".to_vec(),
            bytes: frame_record(b"hello").unwrap(),
        }
    );
    let (state, action) = take_append(state.step(done()));
    assert_eq!(action, IoAction::SyncFile { path: b"/data/wol/5".to_vec() });
    assert_eq!(state.step(done()), Step::Done { value: () });
}

#[test]
fn append_refuses_what_cannot_be_encoded_or_is_too_long() {
    let event = WriteEvent::Delete("a".to_string());
    let (state, _) = take_append(engine().write_event(event.clone()));
    assert_eq!(
        state.step(failed(IoErrorKind::Other)),
        Step::Failed { error: StoreError::EncodeFailed }
    );
    let (state, _) = take_append(engine().write_event(event));
    assert_eq!(
        state.step(IoEvent::Completed { data: vec![0u8; 256] }),
        Step::Failed { error: StoreError::PayloadTooLarge { len: 256 } }
    );
}

#[test]
fn append_fails_where_the_write_or_the_flush_fails() {
    let event = WriteEvent::Delete("a".to_string());
    let (state, _) = take_append(engine().write_event(event.clone()));
    let (state, _) = take_append(state.step(IoEvent::Completed { data: vec![1] }));
    assert_eq!(
        state.step(failed(IoErrorKind::Other)),
        Step::Failed {
            error: StoreError::IoFailure {
                step: IoStep::AppendLog,
                path: b"/data/wol/5".to_vec(),
                kind: IoErrorKind::Other,
            },
        }
    );
    let (state, _) = take_append(engine().write_event(event));
    let (state, _) = take_append(state.step(IoEvent::Completed { data: vec![1] }));
    let (state, _) = take_append(state.step(done()));
    assert_eq!(
        state.step(failed(IoErrorKind::Other)),
        Step::Failed {
            error: StoreError::IoFailure {
                step: IoStep::SyncLog,
                path: b"/data/wol/5".to_vec(),
                kind: IoErrorKind::Other,
            },
        }
    );
}

#[test]
fn fresh_suffix_is_sixteen_letters_and_digits() {
    let suffix = dirkv::persist::fresh_suffix();
    assert_eq!(suffix.len(), 16);
    assert!(is_alphanumeric(&suffix));
    assert_ne!(suffix, dirkv::persist::fresh_suffix());
}

#[test]
fn outcome_without_bytes_reports_none() {
    assert_eq!(IoEvent::Completed { data: vec![1, 2] }.into_bytes(), vec![1, 2]);
    assert_eq!(failed(IoErrorKind::Other).into_bytes(), Vec::<u8>::new());
    let decoded = IoEvent::Decoded { event: WriteEvent::Delete("a".to_string()) };
    assert_eq!(decoded.into_bytes(), Vec::<u8>::new());
}

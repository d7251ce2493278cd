use dirkv::bytes::bytes_equal;
use dirkv::bytes::concat_bytes;
use dirkv::error::StoreError;
use dirkv::record::assemble_record;
use dirkv::record::frame_record;
use dirkv::record::locate_entry;
use dirkv::record::parse_entry;
use dirkv::record::read_entry;
use dirkv::record::validate_log;
use dirkv::record::LogScan;

const HELLO_SHA256: &str = "2cf24dba5fb0a30e26e83b2ac5b9e29e1b161e5c1fa7425e73043362938b9824";
const EMPTY_SHA256: &str = "e3b0c44298fc1c149afbf4c8996fb92427ae41e4649b934ca495991b7852b855";

fn hello_record() -> Vec<u8> {
    let mut record: Vec<u8> = HELLO_SHA256.as_bytes().to_vec();
    record.push(5);
    record.extend_from_slice(b"hello");
    record.push(10);
    record
}

#[test]
fn bytes_compare_by_content() {
    assert!(bytes_equal(b"abc", b"abc"));
    assert!(!bytes_equal(b"abc", b"abd"));
    assert!(!bytes_equal(b"abc", b"ab"));
    assert!(bytes_equal(b"", b""));
    assert_eq!(concat_bytes(b"ab", b"cd"), b"abcd".to_vec());
}

#[test]
fn record_is_checksum_length_payload_line_feed() {
    let checksum = [b'c'; 64];
    let record = assemble_record(&checksum, b"xyz").unwrap();
    assert_eq!(record.len(), 64 + 1 + 3 + 1);
    assert_eq!(&record[..64], &checksum[..]);
    assert_eq!(record[64], 3);
    assert_eq!(&record[65..68], b"xyz");
    assert_eq!(record[68], 10);
}

#[test]
fn frame_uses_the_sha256_of_the_payload() {
    assert_eq!(frame_record(b"hello").unwrap(), hello_record());
    let empty = frame_record(b"").unwrap();
    assert_eq!(&empty[..64], EMPTY_SHA256.as_bytes());
    assert_eq!(empty[64], 0);
    assert_eq!(empty[65], 10);
    assert_eq!(empty.len(), 66);
}

#[test]
fn frame_checksum_equals_the_digest_crate() {
    let payload = b"some payload bytes".to_vec();
    let record = frame_record(&payload).unwrap();
    assert_eq!(&record[..64], sha256::digest(&payload).as_bytes());
    assert_eq!(record[64] as usize, payload.len());
}

#[test]
fn longest_payload_fits_and_one_more_does_not() {
    let longest = vec![7u8; 255];
    let record = frame_record(&longest).unwrap();
    assert_eq!(record.len(), 64 + 1 + 255 + 1);
    assert_eq!(record[64], 255);
    let too_long = vec![7u8; 256];
    assert_eq!(frame_record(&too_long), Err(StoreError::PayloadTooLarge { len: 256 }));
    assert_eq!(
        assemble_record(&[b'0'; 64], &too_long),
        Err(StoreError::PayloadTooLarge { len: 256 })
    );
}

#[test]
fn entry_is_located_by_its_length_byte() {
    let record = hello_record();
    assert_eq!(locate_entry(&record, 0), Some(71));
    assert_eq!(locate_entry(&record[..70], 0), None);
    assert_eq!(locate_entry(&record, 1), None);
    assert_eq!(locate_entry(&record, 71), None);
    assert_eq!(locate_entry(&record, 1000), None);
    assert_eq!(locate_entry(b"", 0), None);
}

#[test]
fn valid_record_reads_back_its_payload() {
    let record = hello_record();
    assert_eq!(read_entry(&record, 0), Ok((b"hello".to_vec(), 71)));
    assert_eq!(parse_entry(&record), Ok(b"hello".to_vec()));
}

#[test]
fn record_with_more_behind_it_is_no_single_entry() {
    let mut record = hello_record();
    record.push(0);
    assert_eq!(read_entry(&record, 0), Ok((b"hello".to_vec(), 71)));
    assert_eq!(parse_entry(&record), Err(StoreError::Corrupted { offset: 0 }));
}

#[test]
fn every_flipped_byte_is_detected() {
    let record = hello_record();
    let mut index: usize = 0;
    while index < record.len() {
        let mut changed = record.clone();
        changed[index] ^= 0x01;
        assert_eq!(parse_entry(&changed), Err(StoreError::Corrupted { offset: 0 }));
        assert!(validate_log(&changed).corrupted_at.is_some());
        index += 1;
    }
}

#[test]
fn empty_log_is_whole() {
    assert_eq!(validate_log(b""), LogScan { records: vec![], corrupted_at: None });
}

#[test]
fn log_of_three_records_is_read_in_order() {
    let mut log = frame_record(b"one").unwrap();
    log.extend(frame_record(b"").unwrap());
    log.extend(frame_record(b"three").unwrap());
    assert_eq!(
        validate_log(&log),
        LogScan {
            records: vec![b"one".to_vec(), b"".to_vec(), b"three".to_vec()],
            corrupted_at: None,
        }
    );
}

#[test]
fn torn_tail_is_reported_where_it_begins() {
    let first = frame_record(b"one").unwrap();
    let second = frame_record(b"two").unwrap();
    let mut log = first.clone();
    log.extend_from_slice(&second[..40]);
    assert_eq!(
        validate_log(&log),
        LogScan { records: vec![b"one".to_vec()], corrupted_at: Some(first.len()) }
    );
}

#[test]
fn nothing_is_read_behind_a_corrupted_record() {
    let first = frame_record(b"one").unwrap();
    let mut second = frame_record(b"two").unwrap();
    second[66] ^= 0xff;
    let third = frame_record(b"three").unwrap();
    let mut log = first.clone();
    log.extend(second);
    log.extend(third);
    assert_eq!(
        validate_log(&log),
        LogScan { records: vec![b"one".to_vec()], corrupted_at: Some(first.len()) }
    );
    assert_eq!(
        read_entry(&log, first.len()),
        Err(StoreError::Corrupted { offset: first.len() })
    );
}

#[test]
fn appending_a_record_adds_its_payload() {
    let mut log = frame_record(b"one").unwrap();
    let before = validate_log(&log);
    log.extend(frame_record(b"two").unwrap());
    let after = validate_log(&log);
    let mut expected = before.records.clone();
    expected.push(b"two".to_vec());
    assert_eq!(after.records, expected);
    assert_eq!(after.corrupted_at, None);
}

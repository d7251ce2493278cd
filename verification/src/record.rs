//! The records of the log: how one is put together, and how a log is
//! validated record by record.
//!
//! A record is the checksum of its payload (64 hexadecimal digits), the
//! payload's length in one byte, the payload, and a line feed.

use vstd::prelude::*;
use crate::bytes::append_bytes;
use crate::bytes::bytes_equal;
use crate::bytes::copy_bytes;
use crate::digest::HASH_LENGTH;
use crate::digest::digest_hex;
use crate::digest::sha256_hex;
use crate::error::StoreError;
use crate::error::StoreErrorView;

verus! {

/// Number of bytes in front of a record's payload: the checksum and the
/// length byte.
pub const METADATA_LENGTH: usize = 65;

/// The byte that ends a record.
pub const LINE_FEED: u8 = 10u8;

/// The longest payload that the length byte can declare.
pub const MAX_PAYLOAD: usize = 255;

/// A record: the checksum, the payload's length in one byte, the payload,
/// and a line feed.
pub open spec fn record(checksum: Seq<u8>, payload: Seq<u8>) -> Seq<u8> {
    checksum + seq![payload.len() as u8] + payload + seq![LINE_FEED]
}

/// The record that carries `payload`, under the digest of the payload.
pub open spec fn framed(payload: Seq<u8>) -> Seq<u8> {
    record(sha256_hex(payload), payload)
}

/// Whether `log` holds, from `at` on, a checksum, a length byte, as many
/// payload bytes as that byte declares, and a line feed.
pub open spec fn entry_fits(log: Seq<u8>, at: int) -> bool {
    &&& 0 <= at
    &&& at + METADATA_LENGTH <= log.len()
    &&& at + METADATA_LENGTH + log[at + HASH_LENGTH] < log.len()
    &&& log[at + METADATA_LENGTH + log[at + HASH_LENGTH]] == LINE_FEED
}

/// The checksum of the entry at `at`.
pub open spec fn entry_checksum(log: Seq<u8>, at: int) -> Seq<u8> {
    log.subrange(at, at + HASH_LENGTH)
}

/// The payload of the entry at `at`, as long as its length byte declares.
pub open spec fn entry_payload(log: Seq<u8>, at: int) -> Seq<u8> {
    log.subrange(at + METADATA_LENGTH, at + METADATA_LENGTH + log[at + HASH_LENGTH])
}

/// The offset just behind the entry at `at`.
pub open spec fn entry_end(log: Seq<u8>, at: int) -> int {
    at + METADATA_LENGTH + log[at + HASH_LENGTH] + 1
}

/// Whether a record stands at `at` whose checksum is the digest of its
/// payload.
pub open spec fn entry_valid(log: Seq<u8>, at: int) -> bool {
    entry_fits(log, at) && sha256_hex(entry_payload(log, at)) == entry_checksum(log, at)
}

/// The payloads of the valid records of `log` from `at` on, up to the
/// first offset at which no valid record stands.
pub open spec fn valid_records(log: Seq<u8>, at: int) -> Seq<Seq<u8>>
    decreases log.len() - at,
{
    if 0 <= at < log.len() && entry_valid(log, at) {
        seq![entry_payload(log, at)] + valid_records(log, entry_end(log, at))
    } else {
        Seq::empty()
    }
}

/// The first offset, from `at` on, at which `log` does not go on with a
/// valid record; `None` where valid records fill it to its end.
pub open spec fn first_corruption(log: Seq<u8>, at: int) -> Option<int>
    decreases log.len() - at,
{
    if 0 <= at < log.len() {
        if entry_valid(log, at) {
            first_corruption(log, entry_end(log, at))
        } else {
            Some(at)
        }
    } else {
        None
    }
}

/// Puts a record together from a checksum and a payload. A payload longer
/// than [`MAX_PAYLOAD`] is refused: its length does not fit the length byte.
pub fn assemble_record(checksum: &[u8], payload: &[u8]) -> (out: Result<Vec<u8>, StoreError>)
    ensures
        payload@.len() <= MAX_PAYLOAD ==> out is Ok && out->Ok_0@ == record(checksum@, payload@),
        payload@.len() > MAX_PAYLOAD ==> out is Err && out->Err_0@ == (StoreErrorView::PayloadTooLarge {
            len: payload@.len() as usize,
        }),
{
    if payload.len() > MAX_PAYLOAD {
        return Err(StoreError::PayloadTooLarge { len: payload.len() });
    }
    let mut out = copy_bytes(checksum);
    out.push(payload.len() as u8);
    append_bytes(&mut out, payload);
    out.push(LINE_FEED);
    Ok(out)
}

/// The record for `payload`: its digest, its length, the payload itself
/// and a line feed. A payload longer than [`MAX_PAYLOAD`] is refused.
pub fn frame_record(payload: &[u8]) -> (out: Result<Vec<u8>, StoreError>)
    ensures
        payload@.len() <= MAX_PAYLOAD ==> {
            &&& out is Ok
            &&& out->Ok_0@ == framed(payload@)
            &&& entry_valid(out->Ok_0@, 0)
            &&& entry_payload(out->Ok_0@, 0) == payload@
            &&& entry_end(out->Ok_0@, 0) == out->Ok_0@.len()
        },
        payload@.len() > MAX_PAYLOAD ==> out is Err && out->Err_0@ == (StoreErrorView::PayloadTooLarge {
            len: payload@.len() as usize,
        }),
{
    let checksum = digest_hex(payload);
    proof {
        if payload@.len() <= MAX_PAYLOAD {
            lemma_record_reads_back(checksum@, payload@);
        }
    }
    assemble_record(checksum.as_slice(), payload)
}

/// Looks for the bounds of an entry at `at`, without looking at its
/// checksum: the offset just behind it, where one fits.
pub fn locate_entry(log: &[u8], at: usize) -> (end: Option<usize>)
    ensures
        end is Some <==> entry_fits(log@, at as int),
        end is Some ==> end->Some_0 == entry_end(log@, at as int),
{
    if at > log.len() || log.len() - at < METADATA_LENGTH {
        return None;
    }
    let declared: usize = log[at + HASH_LENGTH] as usize;
    if log.len() - at - METADATA_LENGTH <= declared {
        return None;
    }
    if log[at + METADATA_LENGTH + declared] != LINE_FEED {
        return None;
    }
    Some(at + METADATA_LENGTH + declared + 1)
}

/// Reads the record at `at`: its payload and the offset just behind it.
/// Where no valid record stands there, the offset is reported as corrupted.
pub fn read_entry(log: &[u8], at: usize) -> (out: Result<(Vec<u8>, usize), StoreError>)
    ensures
        entry_valid(log@, at as int) ==> out is Ok && out->Ok_0.0@ == entry_payload(log@, at as int)
            && out->Ok_0.1 == entry_end(log@, at as int),
        !entry_valid(log@, at as int) ==> out is Err && out->Err_0@ == (StoreErrorView::Corrupted {
            offset: at,
        }),
{
    match locate_entry(log, at) {
        None => Err(StoreError::Corrupted { offset: at }),
        Some(end) => {
            let payload = vstd::slice::slice_subrange(log, at + METADATA_LENGTH, end - 1);
            let checksum = vstd::slice::slice_subrange(log, at, at + HASH_LENGTH);
            let digest = digest_hex(payload);
            if bytes_equal(digest.as_slice(), checksum) {
                Ok((copy_bytes(payload), end))
            } else {
                Err(StoreError::Corrupted { offset: at })
            }
        },
    }
}

/// What a log holds: the payloads of its valid records in order, and the
/// offset at which reading stopped because no valid record stands there.
/// Nothing behind that offset is read: a length byte that cannot be trusted
/// says nothing about where the next record begins.
#[derive(Clone, Debug, PartialEq, Eq)]
pub struct LogScan {
    /// Payloads of the records in front of the first corruption.
    pub records: Vec<Vec<u8>>,
    /// Offset of the first corruption; `None` for a log that is whole.
    pub corrupted_at: Option<usize>,
}

/// The payloads held by `records`.
pub open spec fn payloads(records: Seq<Vec<u8>>) -> Seq<Seq<u8>> {
    records.map_values(|r: Vec<u8>| r@)
}

/// Reads one record that must fill `buf` exactly, and hands back its
/// payload.
pub fn parse_entry(buf: &[u8]) -> (out: Result<Vec<u8>, StoreError>)
    ensures
        entry_valid(buf@, 0) && entry_end(buf@, 0) == buf@.len() ==> out is Ok && out->Ok_0@
            == entry_payload(buf@, 0),
        !(entry_valid(buf@, 0) && entry_end(buf@, 0) == buf@.len()) ==> out is Err && out->Err_0@
            == (StoreErrorView::Corrupted { offset: 0 }),
{
    match read_entry(buf, 0) {
        Ok((payload, end)) => {
            if end == buf.len() {
                Ok(payload)
            } else {
                Err(StoreError::Corrupted { offset: 0 })
            }
        },
        Err(error) => Err(error),
    }
}

/// Validates a whole log, record by record, and stops at the first offset
/// where no valid record stands.
pub fn validate_log(log: &[u8]) -> (scan: LogScan)
    ensures
        payloads(scan.records@) == valid_records(log@, 0),
        scan.corrupted_at is Some <==> first_corruption(log@, 0) is Some,
        scan.corrupted_at is Some ==> scan.corrupted_at->Some_0 == first_corruption(log@, 0)->Some_0,
{
    let mut records: Vec<Vec<u8>> = Vec::new();
    let mut at: usize = 0;
    while at < log.len()
        invariant
            at <= log@.len(),
            valid_records(log@, 0) == payloads(records@) + valid_records(log@, at as int),
            first_corruption(log@, 0) == first_corruption(log@, at as int),
        decreases log@.len() - at,
    {
        match read_entry(log, at) {
            Ok((payload, end)) => {
                let ghost before = records@;
                records.push(payload);
                proof {
                    assert(payloads(before) + (seq![payload@] + valid_records(log@, end as int))
                        == payloads(records@) + valid_records(log@, end as int));
                }
                at = end;
            },
            Err(_) => {
                return LogScan { records, corrupted_at: Some(at) };
            },
        }
    }
    LogScan { records, corrupted_at: None }
}

/// A record is read back as it was put together: the same checksum, the
/// declared length that of the payload, the same payload, and nothing
/// behind the line feed. It is valid exactly if the checksum is the digest
/// of the payload.
pub proof fn lemma_record_reads_back(checksum: Seq<u8>, payload: Seq<u8>)
    requires
        checksum.len() == HASH_LENGTH,
        payload.len() <= MAX_PAYLOAD,
    ensures
        record(checksum, payload).len() == payload.len() + METADATA_LENGTH + 1,
        entry_fits(record(checksum, payload), 0),
        record(checksum, payload)[HASH_LENGTH as int] == payload.len(),
        entry_checksum(record(checksum, payload), 0) == checksum,
        entry_payload(record(checksum, payload), 0) == payload,
        entry_end(record(checksum, payload), 0) == record(checksum, payload).len(),
        entry_valid(record(checksum, payload), 0) == (sha256_hex(payload) == checksum),
{
    assert(entry_checksum(record(checksum, payload), 0) == checksum);
}

/// An entry that fits in `log` reads the same with more bytes behind the
/// log.
pub proof fn lemma_entry_ignores_tail(log: Seq<u8>, tail: Seq<u8>, at: int)
    requires
        entry_fits(log, at),
    ensures
        entry_fits(log + tail, at),
        entry_end(log + tail, at) == entry_end(log, at),
        entry_payload(log + tail, at) == entry_payload(log, at),
        entry_checksum(log + tail, at) == entry_checksum(log, at),
        entry_valid(log + tail, at) == entry_valid(log, at),
{
}

/// The entry at the start of `tail` reads the same at the end of `log`.
pub proof fn lemma_entry_shifts(log: Seq<u8>, tail: Seq<u8>)
    ensures
        entry_fits(log + tail, log.len() as int) == entry_fits(tail, 0),
        entry_fits(tail, 0) ==> {
            &&& entry_end(log + tail, log.len() as int) == log.len() + entry_end(tail, 0)
            &&& entry_payload(log + tail, log.len() as int) == entry_payload(tail, 0)
            &&& entry_checksum(log + tail, log.len() as int) == entry_checksum(tail, 0)
            &&& entry_valid(log + tail, log.len() as int) == entry_valid(tail, 0)
        },
{
    if entry_fits(tail, 0) {
        assert(entry_checksum(log + tail, log.len() as int) == entry_checksum(tail, 0));
    }
}

/// Appending a record to a log that is whole from `at` on: where the
/// record's checksum is the digest of its payload, the payload is added
/// behind the log's records and the log stays whole; where it is not, the
/// records stay as they were and the corruption is found where the record
/// begins.
pub proof fn lemma_append_extends_records(
    log: Seq<u8>,
    checksum: Seq<u8>,
    payload: Seq<u8>,
    at: int,
)
    requires
        0 <= at <= log.len(),
        checksum.len() == HASH_LENGTH,
        payload.len() <= MAX_PAYLOAD,
        first_corruption(log, at) is None,
    ensures
        sha256_hex(payload) == checksum ==> valid_records(log + record(checksum, payload), at)
            == valid_records(log, at).push(payload) && first_corruption(
            log + record(checksum, payload),
            at,
        ) is None,
        sha256_hex(payload) != checksum ==> valid_records(log + record(checksum, payload), at)
            == valid_records(log, at) && first_corruption(log + record(checksum, payload), at)
            == Some(log.len() as int),
    decreases log.len() - at,
{
    let tail = record(checksum, payload);
    let whole = log + tail;
    lemma_record_reads_back(checksum, payload);
    if at == log.len() {
        lemma_entry_shifts(log, tail);
        if sha256_hex(payload) == checksum {
            assert(valid_records(whole, entry_end(whole, at)) == Seq::<Seq<u8>>::empty());
            assert(first_corruption(whole, entry_end(whole, at)) is None);
        }
    } else {
        lemma_entry_ignores_tail(log, tail, at);
        lemma_append_extends_records(log, checksum, payload, entry_end(log, at));
        assert(valid_records(whole, at) == seq![entry_payload(log, at)] + valid_records(
            whole,
            entry_end(log, at),
        ));
        assert(valid_records(log, at) == seq![entry_payload(log, at)] + valid_records(
            log,
            entry_end(log, at),
        ));
    }
}

/// Changing one byte of a valid record is detected, unless SHA-256 itself
/// fails: what is then read from the changed record is another payload with
/// the digest of the first.
pub proof fn lemma_changed_byte_is_detected(
    checksum: Seq<u8>,
    payload: Seq<u8>,
    index: int,
    byte: u8,
)
    requires
        checksum.len() == HASH_LENGTH,
        payload.len() <= MAX_PAYLOAD,
        0 <= index < record(checksum, payload).len(),
        byte != record(checksum, payload)[index],
    ensures
        ({
            let changed = record(checksum, payload).update(index, byte);
            entry_valid(record(checksum, payload), 0) && entry_valid(changed, 0) ==> {
                &&& entry_payload(changed, 0) != payload
                &&& sha256_hex(entry_payload(changed, 0)) == sha256_hex(payload)
            }
        }),
{
    let stored = record(checksum, payload);
    let changed = stored.update(index, byte);
    lemma_record_reads_back(checksum, payload);
    if entry_valid(stored, 0) && entry_valid(changed, 0) && index < HASH_LENGTH {
        assert(entry_payload(changed, 0) == payload);
    }
}

} // verus!

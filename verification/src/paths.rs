//! Layout of the data directory, as functions on byte strings.
//!
//! A path is the byte string handed to the operating system. The separator
//! and the dot are single bytes that never occur inside a multi-byte UTF-8
//! sequence, so the functions here are exact on UTF-8 text as well.

use vstd::prelude::*;
use crate::bytes::append_bytes;
use crate::bytes::copy_bytes;
use crate::bytes::views;

verus! {

/// The byte that separates the components of a path.
pub const SEPARATOR: u8 = 47u8;

/// The byte that separates a file's stem from its extension.
pub const DOT: u8 = 46u8;

/// The digit zero in ASCII.
pub const ZERO: u8 = 48u8;

/// Number of random bytes at the end of a temporary file's name.
pub const SUFFIX_LEN: usize = 16;

/// Name of the directory, below the data directory, that holds the logs.
pub open spec fn log_dir_name() -> Seq<u8> {
    seq![119u8, 111u8, 108u8]
}

/// What stands between a stem and the random suffix: `.tmp.`
pub open spec fn temp_mark() -> Seq<u8> {
    seq![46u8, 116u8, 109u8, 112u8, 46u8]
}

/// The directory named when a path has no directory part: `.`
pub open spec fn here() -> Seq<u8> {
    seq![46u8]
}

/// `name` placed in `dir`: one separator stands between the two, unless
/// `dir` is empty or already ends in one.
pub open spec fn join(dir: Seq<u8>, name: Seq<u8>) -> Seq<u8> {
    if dir.len() == 0 || dir.last() == SEPARATOR {
        dir + name
    } else {
        dir + seq![SEPARATOR] + name
    }
}

/// Index at which the last component of `path` begins: just behind the last
/// separator, or 0 where there is none.
pub open spec fn name_start(path: Seq<u8>) -> int
    decreases path.len(),
{
    if path.len() == 0 {
        0
    } else if path.last() == SEPARATOR {
        path.len() as int
    } else {
        name_start(path.drop_last())
    }
}

/// Index of the last dot in `path` at or behind `from`, or `from - 1`
/// where there is none.
pub open spec fn last_dot(path: Seq<u8>, from: int) -> int
    decreases path.len(),
{
    if path.len() <= from || path.len() == 0 {
        from - 1
    } else if path.last() == DOT {
        path.len() - 1
    } else {
        last_dot(path.drop_last(), from)
    }
}

/// Index at which the stem of the last component ends. The extension
/// starts at the last dot of the component, unless that dot is the
/// component's first byte or there is none: then the stem runs to the end.
pub open spec fn stem_end(path: Seq<u8>) -> int {
    let start = name_start(path);
    let dot = last_dot(path, start + 1);
    if dot > start {
        dot
    } else {
        path.len() as int
    }
}

/// The sibling of `path` that a write goes to first: the stem, `.tmp.`, and
/// the suffix.
pub open spec fn temp_path(path: Seq<u8>, suffix: Seq<u8>) -> Seq<u8> {
    path.subrange(0, stem_end(path)) + temp_mark() + suffix
}

/// The directory that holds `path`, separator included; `.` where the path
/// has no directory part.
pub open spec fn parent_dir(path: Seq<u8>) -> Seq<u8> {
    if name_start(path) == 0 {
        here()
    } else {
        path.subrange(0, name_start(path))
    }
}

/// `n` in decimal, most significant digit first, without leading zeros.
pub open spec fn decimal(n: nat) -> Seq<u8>
    decreases n,
{
    if n < 10 {
        seq![(ZERO + n) as u8]
    } else {
        decimal(n / 10).push((ZERO + n % 10) as u8)
    }
}

/// The file that holds the value of `key`.
pub open spec fn key_path(dir: Seq<u8>, key: Seq<u8>) -> Seq<u8> {
    join(dir, key)
}

/// The directory of the logs below the data directory `dir`.
pub open spec fn log_dir(dir: Seq<u8>) -> Seq<u8> {
    join(dir, log_dir_name())
}

/// The log file of the engine started at `secs` seconds since the epoch.
pub open spec fn log_path(log_dir: Seq<u8>, secs: u64) -> Seq<u8> {
    join(log_dir, decimal(secs as nat))
}

/// What a listing of a directory reports: each name followed by one
/// separator.
pub open spec fn listing(names: Seq<Seq<u8>>) -> Seq<u8>
    decreases names.len(),
{
    if names.len() == 0 {
        Seq::empty()
    } else {
        listing(names.drop_last()) + names.last() + seq![SEPARATOR]
    }
}

/// The names in what a listing reports: the bytes between the separators.
/// Bytes behind the last separator are no name.
pub open spec fn listed_names(data: Seq<u8>) -> Seq<Seq<u8>>
    decreases data.len(),
{
    if data.len() == 0 {
        Seq::empty()
    } else if data.last() == SEPARATOR {
        let front = data.drop_last();
        listed_names(front).push(front.subrange(name_start(front), front.len() as int))
    } else {
        listed_names(data.drop_last())
    }
}

/// Two names that lie at the same path in one directory are the same name.
pub proof fn lemma_join_is_injective(dir: Seq<u8>, a: Seq<u8>, b: Seq<u8>)
    requires
        join(dir, a) == join(dir, b),
    ensures
        a == b,
{
    // Both paths begin with the directory and its separator; what follows
    // is the name.
    let front = join(dir, Seq::empty());
    assert(a == (front + a).subrange(front.len() as int, (front + a).len() as int));
    assert(b == (front + b).subrange(front.len() as int, (front + b).len() as int));
}

/// Whether `name` holds no separator, and so names an entry of a
/// directory rather than a path through it.
pub open spec fn is_plain(name: Seq<u8>) -> bool {
    forall|i: int| 0 <= i < name.len() ==> #[trigger] name[i] != SEPARATOR
}

/// A plain name placed in a directory is the last component of the path.
pub proof fn lemma_name_start_of_join(dir: Seq<u8>, name: Seq<u8>)
    requires
        is_plain(name),
    ensures
        name_start(join(dir, name)) == join(dir, name).len() - name.len(),
    decreases name.len(),
{
    if name.len() != 0 {
        let front = name.drop_last();
        assert(join(dir, name).drop_last() == join(dir, front));
        lemma_name_start_of_join(dir, front);
    }
}

/// The last component begins inside the path.
pub proof fn lemma_name_start_bounds(path: Seq<u8>)
    ensures
        0 <= name_start(path) <= path.len(),
        name_start(path) > 0 ==> path[name_start(path) - 1] == SEPARATOR,
        forall|i: int| name_start(path) <= i < path.len() ==> path[i] != SEPARATOR,
    decreases path.len(),
{
    if path.len() != 0 && path.last() != SEPARATOR {
        let front = path.drop_last();
        lemma_name_start_bounds(front);
        assert forall|i: int| name_start(path) <= i < path.len() implies path[i] != SEPARATOR by {
            if i < front.len() {
                assert(front[i] == path[i]);
            }
        }
    }
}

/// The last dot at or behind `from` is a dot, and no dot follows it.
pub proof fn lemma_last_dot_bounds(path: Seq<u8>, from: int)
    requires
        0 <= from,
    ensures
        from - 1 <= last_dot(path, from) < path.len() || last_dot(path, from) == from - 1,
        last_dot(path, from) >= from ==> path[last_dot(path, from)] == DOT,
        forall|i: int| last_dot(path, from) < i < path.len() && from <= i ==> path[i] != DOT,
    decreases path.len(),
{
    if path.len() > from && path.len() != 0 && path.last() != DOT {
        let front = path.drop_last();
        lemma_last_dot_bounds(front, from);
        assert forall|i: int| last_dot(path, from) < i < path.len() && from <= i implies path[i]
            != DOT by {
            if i < front.len() {
                assert(front[i] == path[i]);
            }
        }
    }
}

/// The stem ends inside the path, behind the start of the last component;
/// where it ends before the path does, a dot stands there and none behind
/// it.
pub proof fn lemma_stem_end_bounds(path: Seq<u8>)
    ensures
        0 <= name_start(path) <= stem_end(path) <= path.len(),
        stem_end(path) < path.len() ==> path[stem_end(path)] == DOT,
        forall|i: int| stem_end(path) < i < path.len() ==> path[i] != DOT,
{
    lemma_name_start_bounds(path);
    lemma_last_dot_bounds(path, name_start(path) + 1);
}

/// Computes [`join`].
pub fn join_path(dir: &[u8], name: &[u8]) -> (out: Vec<u8>)
    ensures
        out@ == join(dir@, name@),
{
    let mut out = copy_bytes(dir);
    if dir.len() != 0 && dir[dir.len() - 1] != SEPARATOR {
        out.push(SEPARATOR);
    }
    append_bytes(&mut out, name);
    out
}

/// Computes [`name_start`].
pub fn find_name_start(path: &[u8]) -> (start: usize)
    ensures
        start == name_start(path@),
        start <= path@.len(),
{
    let mut i: usize = path.len();
    assert(path@.subrange(0, i as int) == path@);
    while i > 0
        invariant
            i <= path@.len(),
            name_start(path@) == name_start(path@.subrange(0, i as int)),
        decreases i,
    {
        if path[i - 1] == SEPARATOR {
            return i;
        }
        assert(path@.subrange(0, i as int).drop_last() == path@.subrange(0, i - 1));
        i -= 1;
    }
    0
}

/// Computes [`stem_end`].
pub fn find_stem_end(path: &[u8]) -> (end: usize)
    ensures
        end == stem_end(path@),
        end <= path@.len(),
{
    let start = find_name_start(path);
    let mut i: usize = path.len();
    assert(path@.subrange(0, i as int) == path@);
    while i > start
        invariant
            start <= i <= path@.len(),
            start == name_start(path@),
            last_dot(path@, start + 1) == last_dot(path@.subrange(0, i as int), start + 1),
        decreases i,
    {
        if i - 1 == start {
            return path.len();
        }
        if path[i - 1] == DOT {
            return i - 1;
        }
        assert(path@.subrange(0, i as int).drop_last() == path@.subrange(0, i - 1));
        i -= 1;
    }
    path.len()
}

/// Computes [`temp_path`].
pub fn make_temp_path(path: &[u8], suffix: &[u8]) -> (out: Vec<u8>)
    ensures
        out@ == temp_path(path@, suffix@),
{
    let end = find_stem_end(path);
    let mut out = copy_bytes(vstd::slice::slice_subrange(path, 0, end));
    out.push(DOT);
    out.push(116u8);
    out.push(109u8);
    out.push(112u8);
    out.push(DOT);
    append_bytes(&mut out, suffix);
    out
}

/// Computes [`parent_dir`].
pub fn make_parent_dir(path: &[u8]) -> (out: Vec<u8>)
    ensures
        out@ == parent_dir(path@),
{
    let start = find_name_start(path);
    if start == 0 {
        let mut out: Vec<u8> = Vec::new();
        out.push(DOT);
        out
    } else {
        copy_bytes(vstd::slice::slice_subrange(path, 0, start))
    }
}

/// Computes [`decimal`].
pub fn make_decimal(n: u64) -> (out: Vec<u8>)
    ensures
        out@ == decimal(n as nat),
    decreases n,
{
    if n < 10 {
        let mut out: Vec<u8> = Vec::new();
        out.push(ZERO + (n as u8));
        out
    } else {
        let mut out = make_decimal(n / 10);
        out.push(ZERO + ((n % 10) as u8));
        out
    }
}

/// Computes [`key_path`].
pub fn make_key_path(dir: &[u8], key: &[u8]) -> (out: Vec<u8>)
    ensures
        out@ == key_path(dir@, key@),
{
    join_path(dir, key)
}

/// Computes [`log_dir`].
pub fn make_log_dir(dir: &[u8]) -> (out: Vec<u8>)
    ensures
        out@ == log_dir(dir@),
{
    let mut name: Vec<u8> = Vec::new();
    name.push(119u8);
    name.push(111u8);
    name.push(108u8);
    join_path(dir, name.as_slice())
}

/// Computes [`log_path`].
pub fn make_log_path(log_dir: &[u8], secs: u64) -> (out: Vec<u8>)
    ensures
        out@ == log_path(log_dir@, secs),
{
    let name = make_decimal(secs);
    join_path(log_dir, name.as_slice())
}

/// Bytes without a separator behind a listing add no name to it, and the
/// last name begins where they begin.
pub proof fn lemma_listed_names_ignore_tail(data: Seq<u8>, tail: Seq<u8>)
    requires
        is_plain(tail),
        data.len() == 0 || data.last() == SEPARATOR,
    ensures
        listed_names(data + tail) == listed_names(data),
        name_start(data + tail) == data.len(),
    decreases tail.len(),
{
    if tail.len() == 0 {
        assert(data + tail == data);
    } else {
        let front = tail.drop_last();
        assert((data + tail).drop_last() == data + front);
        assert((data + tail).last() == tail.last());
        lemma_listed_names_ignore_tail(data, front);
    }
}

/// What a listing reports of names without a separator is read back as
/// those names, in their order.
pub proof fn lemma_listing_is_read_back(names: Seq<Seq<u8>>)
    requires
        forall|i: int| 0 <= i < names.len() ==> is_plain(#[trigger] names[i]),
    ensures
        listed_names(listing(names)) == names,
        listing(names).len() == 0 || listing(names).last() == SEPARATOR,
    decreases names.len(),
{
    if names.len() != 0 {
        let front = names.drop_last();
        assert forall|i: int| 0 <= i < front.len() implies is_plain(#[trigger] front[i]) by {
            assert(front[i] == names[i]);
        }
        lemma_listing_is_read_back(front);
        let data = listing(names);
        let body = listing(front) + names.last();
        assert(data.drop_last() == body);
        lemma_listed_names_ignore_tail(listing(front), names.last());
        assert(body.subrange(listing(front).len() as int, body.len() as int) == names.last());
        assert(listed_names(data) == front.push(names.last()));
    }
}

/// Computes [`listed_names`].
pub fn split_names(data: &[u8]) -> (names: Vec<Vec<u8>>)
    ensures
        views(names@) == listed_names(data@),
{
    let mut names: Vec<Vec<u8>> = Vec::new();
    let mut start: usize = 0;
    let mut i: usize = 0;
    assert(data@.subrange(0, 0) == Seq::<u8>::empty());
    assert(views(names@) == Seq::<Seq<u8>>::empty());
    while i < data.len()
        invariant
            start <= i <= data@.len(),
            start == name_start(data@.subrange(0, i as int)),
            views(names@) == listed_names(data@.subrange(0, i as int)),
        decreases data@.len() - i,
    {
        let ghost front = data@.subrange(0, i as int);
        let ghost more = data@.subrange(0, i + 1);
        assert(more.drop_last() == front);
        assert(more.last() == data@[i as int]);
        if data[i] == SEPARATOR {
            let name = copy_bytes(vstd::slice::slice_subrange(data, start, i));
            let ghost before = names@;
            names.push(name);
            assert(front.subrange(start as int, i as int) == data@.subrange(
                start as int,
                i as int,
            ));
            assert(views(names@) == views(before).push(name@));
            start = i + 1;
        }
        i += 1;
    }
    assert(data@.subrange(0, i as int) == data@);
    names
}

/// Whether `b` is a decimal digit in ASCII.
pub open spec fn is_digit(b: u8) -> bool {
    ZERO <= b <= 57
}

/// The number that `name` is the decimal form of, as [`decimal`] writes
/// it: digits only, no leading zero, no more than a `u64` holds. `None`
/// for every other name.
pub open spec fn stamp_value(name: Seq<u8>) -> Option<u64>
    decreases name.len(),
{
    if name.len() == 0 || !is_digit(name.last()) {
        None
    } else if name.len() == 1 {
        Some((name.last() - ZERO) as u64)
    } else {
        match stamp_value(name.drop_last()) {
            Some(front) => if front == 0 || front * 10 + (name.last() - ZERO) > u64::MAX {
                None
            } else {
                Some((front * 10 + (name.last() - ZERO)) as u64)
            },
            None => None,
        }
    }
}

/// The name that [`decimal`] gives a log is read back as its stamp: the log
/// of one run is found by the next.
pub proof fn lemma_decimal_is_a_stamp(n: u64)
    ensures
        stamp_value(decimal(n as nat)) == Some(n),
        decimal(n as nat).len() >= 1,
        is_plain(decimal(n as nat)),
    decreases n,
{
    let name = decimal(n as nat);
    if n >= 10 {
        let front = decimal((n / 10) as nat);
        lemma_decimal_is_a_stamp(n / 10);
        assert(name.drop_last() == front);
        assert(name.last() == (ZERO + n % 10) as u8);
        assert forall|i: int| 0 <= i < name.len() implies #[trigger] name[i] != SEPARATOR by {
            if i < front.len() {
                assert(name[i] == front[i]);
            }
        }
    }
}

/// Computes [`stamp_value`].
pub fn parse_stamp(name: &[u8]) -> (out: Option<u64>)
    ensures
        out == stamp_value(name@),
{
    let mut value: Option<u64> = None;
    let mut i: usize = 0;
    assert(data_prefix(name@, 0) == Seq::<u8>::empty());
    while i < name.len()
        invariant
            i <= name@.len(),
            value == stamp_value(data_prefix(name@, i as int)),
        decreases name@.len() - i,
    {
        let ghost more = data_prefix(name@, i + 1);
        assert(more.drop_last() == data_prefix(name@, i as int));
        assert(more.last() == name@[i as int]);
        let byte = name[i];
        if byte < ZERO || byte > 57 {
            value = None;
        } else if i == 0 {
            value = Some((byte - ZERO) as u64);
        } else {
            value = match value {
                Some(front) => {
                    if front == 0 || front > (u64::MAX - (byte - ZERO) as u64) / 10 {
                        None
                    } else {
                        Some(front * 10 + (byte - ZERO) as u64)
                    }
                },
                None => None,
            };
        }
        i += 1;
    }
    assert(data_prefix(name@, i as int) == name@);
    value
}

/// The first `n` bytes of `data`.
pub open spec fn data_prefix(data: Seq<u8>, n: int) -> Seq<u8> {
    data.subrange(0, n)
}

/// Whether `stamp` comes behind `after`; every stamp does where `after`
/// is `None`.
pub open spec fn is_above(stamp: u64, after: Option<u64>) -> bool {
    after is None || stamp > after->Some_0
}

/// The index of the log to read next: among the names that are stamps
/// behind `after`, the one with the least stamp, and of several with that
/// stamp the first. `None` where no name is a stamp behind `after`.
pub open spec fn least_above(names: Seq<Seq<u8>>, after: Option<u64>) -> Option<int>
    decreases names.len(),
{
    if names.len() == 0 {
        None
    } else {
        let rest = least_above(names.drop_last(), after);
        let stamp = stamp_value(names.last());
        if stamp is Some && is_above(stamp->Some_0, after) && (rest is None || stamp->Some_0
            < stamp_value(names[rest->Some_0])->Some_0) {
            Some(names.len() - 1)
        } else {
            rest
        }
    }
}

/// What [`least_above`] finds is the index of a stamp behind `after`, and
/// no name is a lesser stamp behind `after`, nor an equal one before it.
pub proof fn lemma_least_above(names: Seq<Seq<u8>>, after: Option<u64>)
    ensures
        least_above(names, after) matches Some(i) ==> {
            &&& 0 <= i < names.len()
            &&& stamp_value(names[i]) is Some
            &&& is_above(stamp_value(names[i])->Some_0, after)
            &&& forall|j: int|
                0 <= j < names.len() && stamp_value(#[trigger] names[j]) is Some && is_above(
                    stamp_value(names[j])->Some_0,
                    after,
                ) ==> stamp_value(names[i])->Some_0 < stamp_value(names[j])->Some_0 || (
                stamp_value(names[i])->Some_0 == stamp_value(names[j])->Some_0 && i <= j)
        },
        least_above(names, after) is None ==> forall|j: int|
            0 <= j < names.len() && stamp_value(#[trigger] names[j]) is Some ==> !is_above(
                stamp_value(names[j])->Some_0,
                after,
            ),
    decreases names.len(),
{
    if names.len() != 0 {
        let front = names.drop_last();
        lemma_least_above(front, after);
        assert forall|j: int| 0 <= j < front.len() implies front[j] == names[j] by {}
    }
}

/// Computes [`least_above`], and with the index the stamp found there.
pub fn find_least_above(names: &Vec<Vec<u8>>, after: Option<u64>) -> (out: Option<(usize, u64)>)
    ensures
        out is Some <==> least_above(views(names@), after) is Some,
        out is Some ==> out->Some_0.0 == least_above(views(names@), after)->Some_0
            && out->Some_0.0 < names@.len() && Some(out->Some_0.1) == stamp_value(
            names@[out->Some_0.0 as int]@,
        ),
{
    let mut best: Option<(usize, u64)> = None;
    let mut i: usize = 0;
    let ghost all = views(names@);
    assert(all.subrange(0, 0) == Seq::<Seq<u8>>::empty());
    while i < names.len()
        invariant
            i <= names@.len(),
            all == views(names@),
            best is Some <==> least_above(all.subrange(0, i as int), after) is Some,
            best is Some ==> best->Some_0.0 == least_above(all.subrange(0, i as int), after)->Some_0
                && best->Some_0.0 < i && Some(best->Some_0.1) == stamp_value(
                all[best->Some_0.0 as int],
            ),
        decreases names@.len() - i,
    {
        let ghost more = all.subrange(0, i + 1);
        assert(more.drop_last() == all.subrange(0, i as int));
        assert(more.last() == all[i as int]);
        assert(all[i as int] == names@[i as int]@);
        proof {
            if best is Some {
                assert(more[best->Some_0.0 as int] == all[best->Some_0.0 as int]);
            }
        }
        match parse_stamp(names[i].as_slice()) {
            Some(stamp) => {
                let behind = match after {
                    None => true,
                    Some(last) => stamp > last,
                };
                let less = match best {
                    None => true,
                    Some((_, least)) => stamp < least,
                };
                if behind && less {
                    best = Some((i, stamp));
                }
            },
            None => {},
        }
        i += 1;
    }
    assert(all.subrange(0, i as int) == all);
    best
}

} // verus!

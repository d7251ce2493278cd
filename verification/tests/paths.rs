use dirkv::paths::find_least_above;
use dirkv::paths::find_name_start;
use dirkv::paths::parse_stamp;
use dirkv::paths::split_names;
use dirkv::paths::find_stem_end;
use dirkv::paths::join_path;
use dirkv::paths::make_decimal;
use dirkv::paths::make_key_path;
use dirkv::paths::make_log_dir;
use dirkv::paths::make_log_path;
use dirkv::paths::make_parent_dir;
use dirkv::paths::make_temp_path;

#[test]
fn join_puts_one_separator_between() {
    assert_eq!(join_path(b"/data", b"a"), b"/data/a".to_vec());
    assert_eq!(join_path(b"/data/", b"a"), b"/data/a".to_vec());
    assert_eq!(join_path(b"", b"a"), b"a".to_vec());
    assert_eq!(join_path(b"rel", b""), b"rel/".to_vec());
}

#[test]
fn key_path_stays_below_the_data_directory() {
    assert_eq!(make_key_path(b"/data", b"a"), b"/data/a".to_vec());
    assert_eq!(make_key_path(b"/data", b"/etc/x"), b"/data//etc/x".to_vec());
    assert_eq!(make_key_path(b"/data", "clé".as_bytes()), "/data/clé".as_bytes().to_vec());
}

#[test]
fn name_starts_behind_the_last_separator() {
    assert_eq!(find_name_start(b"/data/a.txt"), 6);
    assert_eq!(find_name_start(b"a.txt"), 0);
    assert_eq!(find_name_start(b"/data/"), 6);
    assert_eq!(find_name_start(b""), 0);
}

#[test]
fn stem_ends_at_the_last_dot_of_the_name() {
    assert_eq!(find_stem_end(b"/data/a.txt"), 7);
    assert_eq!(find_stem_end(b"a.b.c"), 3);
    assert_eq!(find_stem_end(b"/data/a"), 7);
    assert_eq!(find_stem_end(b"/data/.hidden"), 13);
    assert_eq!(find_stem_end(b"/data/.hidden.txt"), 13);
    assert_eq!(find_stem_end(b"/da.ta/a"), 8);
    assert_eq!(find_stem_end(b"/data/"), 6);
    assert_eq!(find_stem_end(b""), 0);
    assert_eq!(find_stem_end(b"a."), 1);
}

#[test]
fn temp_path_replaces_the_extension() {
    let suffix = b"ABCDEFGHabcd0123";
    assert_eq!(make_temp_path(b"/data/a", suffix), b"/data/a.tmp.ABCDEFGHabcd0123".to_vec());
    assert_eq!(make_temp_path(b"/data/a.txt", suffix), b"/data/a.tmp.ABCDEFGHabcd0123".to_vec());
    assert_eq!(
        make_temp_path(b"/data/.hidden", suffix),
        b"/data/.hidden.tmp.ABCDEFGHabcd0123".to_vec()
    );
    assert_eq!(make_temp_path(b"a.b.c", suffix), b"a.b.tmp.ABCDEFGHabcd0123".to_vec());
    assert_eq!(make_temp_path(b"/data/", suffix), b"/data/.tmp.ABCDEFGHabcd0123".to_vec());
}

#[test]
fn temp_path_is_never_the_path() {
    let suffix = b"ABCDEFGHabcd0123";
    let odd = b"/data/a.tmp.ABCDEFGHabcd0123";
    assert_ne!(make_temp_path(odd, suffix), odd.to_vec());
    assert_eq!(make_temp_path(odd, suffix), b"/data/a.tmp.tmp.ABCDEFGHabcd0123".to_vec());
}

#[test]
fn parent_keeps_its_separator() {
    assert_eq!(make_parent_dir(b"/data/a"), b"/data/".to_vec());
    assert_eq!(make_parent_dir(b"/a"), b"/".to_vec());
    assert_eq!(make_parent_dir(b"a"), b".".to_vec());
    assert_eq!(make_parent_dir(b""), b".".to_vec());
    assert_eq!(make_parent_dir(b"x/y/z.txt"), b"x/y/".to_vec());
}

#[test]
fn decimal_has_no_leading_zeros() {
    assert_eq!(make_decimal(0), b"0".to_vec());
    assert_eq!(make_decimal(9), b"9".to_vec());
    assert_eq!(make_decimal(10), b"10".to_vec());
    assert_eq!(make_decimal(1700000000), b"1700000000".to_vec());
    assert_eq!(make_decimal(u64::MAX), b"18446744073709551615".to_vec());
}

#[test]
fn log_lies_in_wol_under_its_timestamp() {
    assert_eq!(make_log_dir(b"/data"), b"/data/wol".to_vec());
    assert_eq!(make_log_dir(b"/data/"), b"/data/wol".to_vec());
    assert_eq!(make_log_path(b"/data/wol", 1700000000), b"/data/wol/1700000000".to_vec());
}

#[test]
fn distinct_keys_lie_in_distinct_files() {
    let keys: [&str; 6] = ["a", "b", "a.b", "ab", "a/b", "clé"];
    let mut i: usize = 0;
    while i < keys.len() {
        let mut j: usize = i + 1;
        while j < keys.len() {
            assert_ne!(
                make_key_path(b"/data", keys[i].as_bytes()),
                make_key_path(b"/data", keys[j].as_bytes())
            );
            j += 1;
        }
        i += 1;
    }
}

#[test]
fn listing_is_split_at_the_separators() {
    assert_eq!(split_names(b"10/9/notes/"), vec![b"10".to_vec(), b"9".to_vec(), b"notes".to_vec()]);
    assert_eq!(split_names(b""), Vec::<Vec<u8>>::new());
    assert_eq!(split_names(b"a//b"), vec![b"a".to_vec(), b"".to_vec()]);
}

#[test]
fn stamp_is_a_decimal_without_leading_zeros() {
    assert_eq!(parse_stamp(b"0"), Some(0));
    assert_eq!(parse_stamp(b"1700000000"), Some(1700000000));
    assert_eq!(parse_stamp(b"18446744073709551615"), Some(u64::MAX));
    assert_eq!(parse_stamp(b"18446744073709551616"), None);
    assert_eq!(parse_stamp(b"007"), None);
    assert_eq!(parse_stamp(b""), None);
    assert_eq!(parse_stamp(b"12a"), None);
    assert_eq!(parse_stamp(b"-1"), None);
    assert_eq!(parse_stamp(&make_decimal(4242)), Some(4242));
}

#[test]
fn next_log_is_the_least_stamp_behind_the_last() {
    let names: Vec<Vec<u8>> = vec![b"10".to_vec(), b"x".to_vec(), b"9".to_vec(), b"30".to_vec()];
    assert_eq!(find_least_above(&names, None), Some((2, 9)));
    assert_eq!(find_least_above(&names, Some(9)), Some((0, 10)));
    assert_eq!(find_least_above(&names, Some(10)), Some((3, 30)));
    assert_eq!(find_least_above(&names, Some(30)), None);
    assert_eq!(find_least_above(&Vec::new(), None), None);
}

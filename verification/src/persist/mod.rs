//! Reading, writing and removing one file.

use vstd::prelude::*;
use rand::distr::Alphanumeric;
use rand::distr::SampleString;
use crate::bytes::copy_bytes;
use crate::io::IoAction;
use crate::io::IoActionView;
use crate::paths::DOT;
use crate::paths::SEPARATOR;
use crate::paths::SUFFIX_LEN;
use crate::paths::is_plain;
use crate::paths::lemma_stem_end_bounds;
use crate::paths::make_parent_dir;
use crate::paths::make_temp_path;
use crate::paths::parent_dir;
use crate::paths::stem_end;
use crate::paths::temp_path;

pub mod del;
pub mod read;
pub mod write;

verus! {

/// Whether `b` is an ASCII letter or digit.
pub open spec fn is_alphanumeric(b: u8) -> bool {
    ||| 48 <= b <= 57
    ||| 65 <= b <= 90
    ||| 97 <= b <= 122
}

/// Whether `suffix` can end a temporary file's name: [`SUFFIX_LEN`] ASCII
/// letters and digits.
pub open spec fn valid_suffix(suffix: Seq<u8>) -> bool {
    &&& suffix.len() == SUFFIX_LEN
    &&& forall|i: int| 0 <= i < suffix.len() ==> is_alphanumeric(#[trigger] suffix[i])
}

/// The last [`SUFFIX_LEN`] bytes of a temporary file's name.
pub open spec fn temp_suffix(temp: Seq<u8>) -> Seq<u8> {
    temp.subrange(temp.len() - SUFFIX_LEN, temp.len() as int)
}

/// Whether `temp` names a temporary sibling of `path`: the stem of `path`,
/// `.tmp.`, and a valid suffix.
pub open spec fn is_temp_of(temp: Seq<u8>, path: Seq<u8>) -> bool {
    &&& temp.len() >= SUFFIX_LEN
    &&& valid_suffix(temp_suffix(temp))
    &&& temp == temp_path(path, temp_suffix(temp))
}

/// Calls `sample_string` of rand's `Alphanumeric` on the generator that
/// `rand::rng` hands out, and gives back the bytes of the string.
///
/// Trusted: the string has `len` characters, each an ASCII letter or digit.
/// Which ones is left open. The generator is seeded by the operating
/// system; rand panics where that fails.
#[verifier::external_body]
fn random_alphanumeric(len: usize) -> (out: Vec<u8>)
    ensures
        out@.len() == len,
        forall|i: int| 0 <= i < out@.len() ==> is_alphanumeric(#[trigger] out@[i]),
{
    Alphanumeric.sample_string(&mut rand::rng(), len).into_bytes()
}

/// A temporary path ends in the suffix it was made with.
pub proof fn lemma_temp_path_suffix(path: Seq<u8>, suffix: Seq<u8>)
    requires
        suffix.len() == SUFFIX_LEN,
    ensures
        temp_suffix(temp_path(path, suffix)) == suffix,
        valid_suffix(suffix) ==> is_temp_of(temp_path(path, suffix), path),
{
    lemma_stem_end_bounds(path);
    assert(temp_suffix(temp_path(path, suffix)) == suffix);
}

/// A valid suffix holds no separator.
pub proof fn lemma_valid_suffix_is_plain(suffix: Seq<u8>)
    requires
        valid_suffix(suffix),
    ensures
        is_plain(suffix),
{
    assert forall|i: int| 0 <= i < suffix.len() implies #[trigger] suffix[i] != SEPARATOR by {
        assert(is_alphanumeric(suffix[i]));
    }
}

/// A temporary path is never the path it stands in for, whatever the
/// suffix.
pub proof fn lemma_temp_path_differs(path: Seq<u8>, suffix: Seq<u8>)
    ensures
        temp_path(path, suffix) != path,
{
    lemma_stem_end_bounds(path);
    let end = stem_end(path);
    let temp = temp_path(path, suffix);
    if temp == path {
        assert(path[end + 4] != DOT);
    }
}

/// Names the temporary sibling of `path` with the given suffix and asks for
/// the file to be created, or emptied should it exist.
pub fn temp_file_for(path: &[u8], suffix: &[u8]) -> (out: (Vec<u8>, IoAction))
    ensures
        out.0@ == temp_path(path@, suffix@),
        out.1@ == (IoActionView::CreateTruncate { path: out.0@ }),
{
    let temp = make_temp_path(path, suffix);
    let again = copy_bytes(temp.as_slice());
    (temp, IoAction::CreateTruncate { path: again })
}

/// Draws a suffix for temporary files at random.
pub fn fresh_suffix() -> (out: Vec<u8>)
    ensures
        valid_suffix(out@),
{
    random_alphanumeric(SUFFIX_LEN)
}

/// Picks the name of a fresh temporary sibling of `path`, with a random
/// suffix, and asks for the file to be created, or emptied should it exist.
pub fn create_temp_file(path: &[u8]) -> (out: (Vec<u8>, IoAction))
    ensures
        is_temp_of(out.0@, path@),
        out.1@ == (IoActionView::CreateTruncate { path: out.0@ }),
{
    let suffix = fresh_suffix();
    proof {
        lemma_temp_path_suffix(path@, suffix@);
    }
    temp_file_for(path, suffix.as_slice())
}

/// Asks for the directory that holds `path` to be flushed.
pub fn fsync_parent_dir(path: &[u8]) -> (action: IoAction)
    ensures
        action@ == (IoActionView::SyncDir { path: parent_dir(path@) }),
{
    IoAction::SyncDir { path: make_parent_dir(path) }
}

} // verus!

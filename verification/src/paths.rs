//! File-system paths as text.
//!
//! The library reads no file. It composes paths with the path functions of
//! std, whose results depend on the platform's separator, so the contracts
//! name those results instead of spelling them out.

use crate::text::rows;
use crate::text::string_of;
use std::path::Path;
use vstd::prelude::*;

verus! {

/// The path that `Path::join` gives for `base` extended by `part`.
pub uninterp spec fn joined_path(base: Seq<char>, part: Seq<char>) -> Seq<char>;

/// The final component that `Path::file_name` finds in `path`, if any.
pub uninterp spec fn path_file_name(path: Seq<char>) -> Option<Seq<char>>;

/// The path that `Path::with_file_name` gives for `path` and `name`.
pub uninterp spec fn path_with_file_name(path: Seq<char>, name: Seq<char>) -> Seq<char>;

/// `base` extended by each of `parts` in turn.
pub open spec fn joined_all(base: Seq<char>, parts: Seq<Seq<char>>) -> Seq<char>
    decreases parts.len(),
{
    if parts.len() == 0 {
        base
    } else {
        joined_path(joined_all(base, parts.drop_last()), parts.last())
    }
}

/// Calls `Path::join` of std on two texts. The contract claims only that the
/// result is the one text that std computes from these two.
#[verifier::external_body]
pub(crate) fn join(base: &str, part: &str) -> (res: String)
    ensures
        res@ == joined_path(base@, part@),
{
    Path::new(base).join(part).to_string_lossy().into_owned()
}

/// Calls `Path::file_name` of std. The contract claims only that the result
/// is the one that std computes from this text.
#[verifier::external_body]
pub(crate) fn file_name(path: &str) -> (res: Option<String>)
    ensures
        match res {
            Some(name) => path_file_name(path@) == Some(name@),
            None => path_file_name(path@) is None,
        },
{
    match Path::new(path).file_name() {
        Some(name) => Some(name.to_string_lossy().into_owned()),
        None => None,
    }
}

/// Calls `Path::with_file_name` of std. The contract claims only that the
/// result is the one text that std computes from these two.
#[verifier::external_body]
pub(crate) fn with_file_name(path: &str, name: &str) -> (res: String)
    ensures
        res@ == path_with_file_name(path@, name@),
{
    Path::new(path).with_file_name(name).to_string_lossy().into_owned()
}

/// What `Path::strip_prefix` leaves of `path` without `prefix`, if `path`
/// starts with it.
pub uninterp spec fn path_strip_prefix(path: Seq<char>, prefix: Seq<char>) -> Option<Seq<char>>;

/// Calls `Path::strip_prefix` of std. The contract claims only that the
/// result is the one that std computes from these two texts.
#[verifier::external_body]
pub(crate) fn strip_prefix(path: &str, prefix: &str) -> (res: Option<String>)
    ensures
        match res {
            Some(rest) => path_strip_prefix(path@, prefix@) == Some(rest@),
            None => path_strip_prefix(path@, prefix@) is None,
        },
{
    match Path::new(path).strip_prefix(prefix) {
        Ok(rest) => Some(rest.to_string_lossy().into_owned()),
        Err(_) => None,
    }
}

/// `base` extended by each of `parts` in turn.
pub fn join_all(base: &str, parts: &Vec<Vec<char>>) -> (res: String)
    ensures
        res@ == joined_all(base@, rows(parts@)),
{
    let mut res = base.to_owned();
    proof {
        assert(rows(parts@).take(0) =~= seq![]);
    }
    let mut i: usize = 0;
    while i < parts.len()
        invariant
            i <= parts@.len(),
            res@ == joined_all(base@, rows(parts@).take(i as int)),
        decreases parts@.len() - i,
    {
        proof {
            assert(rows(parts@).take(i + 1).drop_last() =~= rows(parts@).take(i as int));
            assert(rows(parts@).take(i + 1).last() == parts@[i as int]@);
        }
        let part = string_of(&parts[i]);
        res = join(res.as_str(), part.as_str());
        i += 1;
    }
    proof {
        assert(rows(parts@).take(parts@.len() as int) =~= rows(parts@));
    }
    res
}

} // verus!

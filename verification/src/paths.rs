//! `std::path` operations on UTF-8 paths, and joining paths.
use vstd::prelude::*;
use vstd::slice::slice_to_vec;
use vstd::string::StrSliceExecFns;

use crate::text::join_str;

verus! {

/// What `Path::parent` gives for a path.
pub uninterp spec fn spec_path_parent(path: Seq<char>) -> Option<Seq<char>>;

/// `pushed` joined onto `base` as `Path::join` does on Unix: an absolute
/// `pushed` replaces `base`; otherwise a `/` goes between them unless `base`
/// is empty or already ends with one.
pub open spec fn spec_path_join(base: Seq<char>, pushed: Seq<char>) -> Seq<char> {
    if pushed.len() > 0 && pushed[0] == '/' {
        pushed
    } else if base.len() == 0 || base.last() == '/' {
        base + pushed
    } else {
        base + seq!['/'] + pushed
    }
}

/// What `Path::file_name` gives for a path.
pub uninterp spec fn spec_path_file_name(path: Seq<char>) -> Option<Seq<char>>;

/// What `Path::starts_with` answers for a path and a base.
pub uninterp spec fn spec_path_starts_with(path: Seq<char>, base: Seq<char>) -> bool;

/// Calls `Path::parent`.
///
/// The result is named by `spec_path_parent`. std documents it as the path
/// without its final component, so a parent is shorter than the path; that
/// is the one fact stated beside the name.
#[verifier::external_body]
pub(crate) fn path_parent(path: &str) -> (r: Option<String>)
    ensures
        match r {
            Some(parent) => spec_path_parent(path@) == Some(parent@) && parent@.len() < path@.len(),
            None => spec_path_parent(path@) is None,
        },
{
    std::path::Path::new(path).parent().map(|parent| parent.to_string_lossy().into_owned())
}

/// Joins two UTF-8 paths as `Path::join` does on Unix.
pub(crate) fn path_join(base: &str, pushed: &str) -> (r: String)
    ensures
        r@ == spec_path_join(base@, pushed@),
{
    let base_len = base.unicode_len();
    let pushed_len = pushed.unicode_len();
    if pushed_len > 0 && pushed.get_char(0) == '/' {
        return pushed.to_owned();
    }
    if base_len == 0 || base.get_char(base_len - 1) == '/' {
        join_str(base, pushed)
    } else {
        proof {
            reveal_strlit("/");
        }
        let with_separator = join_str(base, "/");
        join_str(with_separator.as_str(), pushed)
    }
}

/// Calls `Path::file_name`; the result is named by `spec_path_file_name`.
#[verifier::external_body]
pub(crate) fn path_file_name(path: &str) -> (r: Option<String>)
    ensures
        match r {
            Some(name) => spec_path_file_name(path@) == Some(name@),
            None => spec_path_file_name(path@) is None,
        },
{
    std::path::Path::new(path).file_name().map(|name| name.to_string_lossy().into_owned())
}

/// Calls `Path::starts_with`; the answer is named by `spec_path_starts_with`.
#[verifier::external_body]
pub(crate) fn path_starts_with(path: &str, base: &str) -> (r: bool)
    ensures
        r == spec_path_starts_with(path@, base@),
{
    std::path::Path::new(path).starts_with(base)
}

/// What `Path`'s `==` answers for two paths.
pub uninterp spec fn spec_paths_equal(a: Seq<char>, b: Seq<char>) -> bool;

/// Calls `PartialEq::eq` on two `Path`s, which compares them component by
/// component; the answer is named by `spec_paths_equal`.
#[verifier::external_body]
pub(crate) fn paths_equal(a: &str, b: &str) -> (r: bool)
    ensures
        r == spec_paths_equal(a@, b@),
{
    std::path::Path::new(a) == std::path::Path::new(b)
}

/// `base` with the relative path `relative` pushed onto it, as
/// `PathBuf::push` does on Unix: a `/` goes between them unless `base` is
/// empty or already ends with one.
pub open spec fn push_relative_spec(base: Seq<u8>, relative: Seq<u8>) -> Seq<u8> {
    if base.len() == 0 || base.last() == 47u8 {
        base + relative
    } else {
        base + seq![47u8] + relative
    }
}

/// Pushes a relative path onto a raw (not necessarily UTF-8) base path.
pub fn push_relative(base: &[u8], relative: &[u8]) -> (r: Vec<u8>)
    ensures
        r@ == push_relative_spec(base@, relative@),
{
    let mut r = slice_to_vec(base);
    if base.len() > 0 && base[base.len() - 1] != 47u8 {
        r.push(47u8);
    }
    let ghost start = r@;
    let mut i: usize = 0;
    while i < relative.len()
        invariant
            i <= relative@.len(),
            r@ == start + relative@.take(i as int),
        decreases relative@.len() - i,
    {
        r.push(relative[i]);
        i = i + 1;
        assert(r@ =~= start + relative@.take(i as int));
    }
    assert(relative@.take(relative@.len() as int) =~= relative@);
    r
}

} // verus!

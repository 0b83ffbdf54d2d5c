use vstd::prelude::*;
use vstd::string::*;
use crate::text::{
    find_last, find_pattern, first_match, join2, last_index, lemma_first_match_bounds,
    lemma_last_index_bounds, slice,
};

verus! {

/// The last `/`-separated segment of a tarball address.
pub open spec fn tarball_file_name(url: Seq<char>) -> Seq<char> {
    let k = last_index(url, '/');
    if k < 0 {
        url
    } else {
        url.subrange(k + 1, url.len() as int)
    }
}

/// The cache entry of a tarball: its file name up to the first `.tgz`, that
/// is the package name with its version suffix.
pub open spec fn cache_entry_name(url: Seq<char>) -> Seq<char> {
    let f = tarball_file_name(url);
    let k = first_match(f, ".tgz"@);
    if k < 0 {
        f
    } else {
        f.subrange(0, k)
    }
}

/// The project-local slot of a cache entry: the entry name with the suffix
/// from its last `-` trimmed off.
pub open spec fn slot_name(entry: Seq<char>) -> Seq<char> {
    let k = last_index(entry, '-');
    if k < 0 {
        entry
    } else {
        entry.subrange(0, k)
    }
}

/// `leaf` inside the dependency directory under `root`.
pub open spec fn under_modules(root: Seq<char>, leaf: Seq<char>) -> Seq<char> {
    root + "/node_modules/"@ + leaf
}

/// The file name of a tarball address.
pub fn file_name_from_url(url: &str) -> (r: String)
    ensures
        r@ == tarball_file_name(url@),
{
    let n = url.unicode_len();
    proof {
        lemma_last_index_bounds(url@, '/');
    }
    match find_last(url, '/') {
        Some(k) => slice(url, k + 1, n),
        None => url.to_owned(),
    }
}

/// The cache entry name for a tarball address.
pub fn cache_entry_from_url(url: &str) -> (r: String)
    ensures
        r@ == cache_entry_name(url@),
{
    let f = file_name_from_url(url);
    proof {
        lemma_first_match_bounds(f@, ".tgz"@);
    }
    match find_pattern(f.as_str(), ".tgz") {
        Some(k) => slice(f.as_str(), 0, k),
        None => f,
    }
}

/// The local slot name for a cache entry.
pub fn local_slot_name(entry: &str) -> (r: String)
    ensures
        r@ == slot_name(entry@),
{
    proof {
        lemma_last_index_bounds(entry@, '-');
    }
    match find_last(entry, '-') {
        Some(k) => slice(entry, 0, k),
        None => entry.to_owned(),
    }
}

/// The directory that holds `leaf` in the dependency directory under `root`.
pub fn modules_path(root: &str, leaf: &str) -> (r: String)
    ensures
        r@ == under_modules(root@, leaf@),
{
    let dir = join2(root, "/node_modules/");
    join2(dir.as_str(), leaf)
}

} // verus!

use vstd::prelude::*;
use vstd::string::*;
use crate::text::{find_first, first_index, lemma_first_index_bounds, slice};

verus! {

/// Why a tarball could not be fetched or unpacked.
#[derive(Debug, Clone, PartialEq)]
pub enum DownloadError {
    DownloadFailed(String),
    ExtractionFailed(String),
    DirectoryCreationFailed(String),
}

/// One member of a tar archive: its raw type byte, its path (`None` where it
/// is not UTF-8) and its content.
#[derive(Debug, Clone, PartialEq)]
pub struct ArchiveEntry {
    pub kind: u8,
    pub path: Option<String>,
    pub data: Vec<u8>,
}

/// One step of writing an unpacked archive, with a path relative to the
/// destination directory.
#[derive(Debug, Clone, PartialEq)]
pub enum WriteOp {
    CreateDir(String),
    WriteFile(String, Vec<u8>),
}

/// What the gzip decoder yields for a compressed stream.
pub uninterp spec fn gunzip_of(data: Seq<u8>) -> Option<Seq<u8>>;

/// The members that the tar reader finds in an archive: type byte, path
/// (where it is UTF-8) and content of each, in archive order.
pub uninterp spec fn tar_members_of(data: Seq<u8>) -> Option<Seq<(u8, Option<Seq<char>>, Seq<u8>)>>;

/// Relies on flate2's `read::GzDecoder`: the bytes it decodes from `data`,
/// or `None` where the stream is not valid gzip.
#[verifier::external_body]
fn gunzip(data: &Vec<u8>) -> (r: Option<Vec<u8>>)
    ensures
        match r {
            Some(v) => gunzip_of(data@) == Some(v@),
            None => gunzip_of(data@) is None,
        },
{
    let mut out = Vec::new();
    let mut decoder = flate2::read::GzDecoder::new(data.as_slice());
    match std::io::Read::read_to_end(&mut decoder, &mut out) {
        Ok(_) => Some(out),
        Err(_) => None,
    }
}

/// Relies on tar's `Archive::entries`: the members of the archive, each with
/// `EntryType::as_byte`, `Entry::path` (where it is UTF-8) and its content;
/// `None` where a member cannot be read.
#[verifier::external_body]
fn tar_members(data: &Vec<u8>) -> (r: Option<Vec<ArchiveEntry>>)
    ensures
        match r {
            Some(v) => tar_members_of(data@) == Some(v@.map_values(|e: ArchiveEntry| entry_view(e))),
            None => tar_members_of(data@) is None,
        },
{
    let mut archive = tar::Archive::new(data.as_slice());
    let mut out = Vec::new();
    for entry in archive.entries().ok()? {
        let mut entry = entry.ok()?;
        let kind = entry.header().entry_type().as_byte();
        let path = entry.path().ok()?.to_str().map(str::to_owned);
        let mut bytes = Vec::new();
        std::io::Read::read_to_end(&mut entry, &mut bytes).ok()?;
        out.push(ArchiveEntry { kind, path, data: bytes });
    }
    Some(out)
}

pub open spec fn entry_view(e: ArchiveEntry) -> (u8, Option<Seq<char>>, Seq<u8>) {
    (e.kind, match e.path {
        Some(p) => Some(p@),
        None => None,
    }, e.data@)
}

/// The type byte of a regular file.
pub open spec fn is_file_kind(k: u8) -> bool {
    k == 48
}

/// The type byte of a directory.
pub open spec fn is_dir_kind(k: u8) -> bool {
    k == 53
}

/// Whether a member is written at all: regular files and directories only.
pub open spec fn is_written(e: (u8, Option<Seq<char>>, Seq<u8>)) -> bool {
    is_file_kind(e.0) || is_dir_kind(e.0)
}

/// `p` without its leading `/` characters.
pub open spec fn skip_slashes(p: Seq<char>) -> Seq<char>
    decreases p.len(),
{
    if p.len() > 0 && p[0] == '/' {
        skip_slashes(p.drop_first())
    } else {
        p
    }
}

/// `p` with its first component dropped: what follows the first `/`, without
/// further leading `/`; empty where `p` has a single component.
pub open spec fn strip_first_component(p: Seq<char>) -> Seq<char> {
    let k = first_index(p, '/');
    if k < 0 {
        Seq::empty()
    } else {
        skip_slashes(p.subrange(k + 1, p.len() as int))
    }
}

/// The write step for a member that is written: whether it is a directory,
/// its destination-relative path, and the content of a file.
pub open spec fn target(e: (u8, Option<Seq<char>>, Seq<u8>)) -> (bool, Seq<char>, Seq<u8>) {
    if is_dir_kind(e.0) {
        (true, strip_first_component(e.1->Some_0), Seq::empty())
    } else {
        (false, strip_first_component(e.1->Some_0), e.2)
    }
}

/// The write steps for a list of members, in order; `None` where a member
/// that is written has a path that is not UTF-8.
pub open spec fn planned(members: Seq<(u8, Option<Seq<char>>, Seq<u8>)>) -> Option<Seq<(bool, Seq<char>, Seq<u8>)>>
    decreases members.len(),
{
    if members.len() == 0 {
        Some(Seq::empty())
    } else {
        let rest = planned(members.drop_last());
        if is_written(members.last()) {
            match rest {
                Some(r) => if members.last().1 is Some {
                    Some(r.push(target(members.last())))
                } else {
                    None
                },
                None => None,
            }
        } else {
            rest
        }
    }
}

pub open spec fn op_view(op: WriteOp) -> (bool, Seq<char>, Seq<u8>) {
    match op {
        WriteOp::CreateDir(p) => (true, p@, Seq::empty()),
        WriteOp::WriteFile(p, d) => (false, p@, d@),
    }
}

/// Only regular files and directories are written, each to its path with
/// the first component removed: the write steps are exactly the targets of
/// the members of those two types, in archive order. Planning fails only
/// where such a member's path is not UTF-8; other members never matter.
pub proof fn law_only_files_and_dirs_written(members: Seq<(u8, Option<Seq<char>>, Seq<u8>)>)
    ensures
        (planned(members) is Some) == (forall|i: int| 0 <= i < members.len() && is_written(#[trigger] members[i]) ==> members[i].1 is Some),
        planned(members) is Some ==> planned(members)->Some_0 == members.filter(
            |e: (u8, Option<Seq<char>>, Seq<u8>)| is_written(e),
        ).map_values(|e: (u8, Option<Seq<char>>, Seq<u8>)| target(e)),
    decreases members.len(),
{
    reveal(Seq::filter);
    if members.len() > 0 {
        let init = members.drop_last();
        law_only_files_and_dirs_written(init);
        assert forall|i: int| 0 <= i < init.len() implies #[trigger] init[i] == members[i] by {}
        if (forall|i: int| 0 <= i < members.len() && is_written(#[trigger] members[i]) ==> members[i].1 is Some) {
            assert forall|i: int| 0 <= i < init.len() && is_written(#[trigger] init[i]) implies init[i].1 is Some by {
                assert(members[i] == init[i]);
            }
            assert(is_written(members[members.len() - 1]) ==> members.last().1 is Some);
        }
        if planned(members) is Some {
            assert(planned(init) is Some);
            assert forall|i: int| 0 <= i < members.len() && is_written(#[trigger] members[i]) implies members[i].1 is Some by {
                if i < init.len() {
                    assert(init[i] == members[i]);
                }
            }
        }
        let f = init.filter(|e: (u8, Option<Seq<char>>, Seq<u8>)| is_written(e));
        assert(f.push(members.last()).map_values(|e: (u8, Option<Seq<char>>, Seq<u8>)| target(e)) =~= f.map_values(
            |e: (u8, Option<Seq<char>>, Seq<u8>)| target(e),
        ).push(target(members.last())));
    }
}

/// A path under a single wrapping directory is written relative to the
/// destination without that directory: `top/rest` goes to `rest`.
pub proof fn law_wrapper_directory_stripped(top: Seq<char>, rest: Seq<char>)
    requires
        top.len() > 0,
        forall|i: int| 0 <= i < top.len() ==> top[i] != '/',
        rest.len() == 0 || rest[0] != '/',
    ensures
        strip_first_component(top + seq!['/'] + rest) == rest,
{
    let p = top + seq!['/'] + rest;
    first_index_at(p, '/', top.len() as int);
    assert(p.subrange(top.len() as int + 1, p.len() as int) =~= rest);
}

/// Whether member `e` lies under the wrapping directory `top`: its path is
/// `top/rest`, with `rest` not starting with `/`.
pub open spec fn under_wrapper(e: (u8, Option<Seq<char>>, Seq<u8>), top: Seq<char>) -> bool {
    e.1 matches Some(p) && (p.len() > top.len() && p.subrange(0, top.len() as int) == top && p[top.len() as int]
        == '/' && (p.len() == top.len() + 1 || p[top.len() as int + 1] != '/'))
}

/// The path of a member under a wrapping directory `top`, without it.
pub open spec fn flat_path(e: (u8, Option<Seq<char>>, Seq<u8>), top: Seq<char>) -> Seq<char> {
    e.1->Some_0.subrange(top.len() as int + 1, e.1->Some_0.len() as int)
}

/// An archive whose members all lie under one wrapping directory `top` is
/// unpacked flat: each written member goes to its path without `top/`,
/// never under a `top` directory of the destination.
pub proof fn law_wrapped_archive_unpacks_flat(members: Seq<(u8, Option<Seq<char>>, Seq<u8>)>, top: Seq<char>)
    requires
        top.len() > 0,
        forall|i: int| 0 <= i < top.len() ==> top[i] != '/',
        forall|i: int| 0 <= i < members.len() ==> under_wrapper(#[trigger] members[i], top),
    ensures
        planned(members) == Some(members.filter(|e: (u8, Option<Seq<char>>, Seq<u8>)| is_written(e)).map_values(
            |e: (u8, Option<Seq<char>>, Seq<u8>)| (
                is_dir_kind(e.0),
                flat_path(e, top),
                if is_dir_kind(e.0) { Seq::<u8>::empty() } else { e.2 },
            ),
        )),
{
    law_only_files_and_dirs_written(members);
    let w = members.filter(|e: (u8, Option<Seq<char>>, Seq<u8>)| is_written(e));
    assert forall|j: int| 0 <= j < w.len() implies #[trigger] target(w[j]) == (
        is_dir_kind(w[j].0),
        flat_path(w[j], top),
        if is_dir_kind(w[j].0) { Seq::<u8>::empty() } else { w[j].2 },
    ) by {
        assert(w.contains(w[j]));
        members.lemma_filter_contains_rev(|e: (u8, Option<Seq<char>>, Seq<u8>)| is_written(e), w[j]);
        let i = choose|i: int| 0 <= i < members.len() && members[i] == w[j];
        assert(under_wrapper(members[i], top));
        let p = w[j].1->Some_0;
        let rest = p.subrange(top.len() as int + 1, p.len() as int);
        assert(p =~= top + seq!['/'] + rest);
        law_wrapper_directory_stripped(top, rest);
    }
    assert(w.map_values(|e: (u8, Option<Seq<char>>, Seq<u8>)| target(e)) =~= w.map_values(
        |e: (u8, Option<Seq<char>>, Seq<u8>)| (
            is_dir_kind(e.0),
            flat_path(e, top),
            if is_dir_kind(e.0) { Seq::<u8>::empty() } else { e.2 },
        ),
    ));
}

proof fn first_index_at(s: Seq<char>, c: char, k: int)
    requires
        0 <= k < s.len(),
        s[k] == c,
        forall|j: int| 0 <= j < k ==> s[j] != c,
    ensures
        first_index(s, c) == k,
    decreases k,
{
    if k > 0 {
        first_index_at(s.drop_first(), c, k - 1);
    }
}

/// `p` without its leading `/` characters.
fn without_leading_slashes(p: &str) -> (r: String)
    ensures
        r@ == skip_slashes(p@),
{
    let n = p.unicode_len();
    let mut i: usize = 0;
    assert(p@.subrange(0, n as int) =~= p@);
    while i < n && p.get_char(i) == '/'
        invariant
            n == p@.len(),
            i <= n,
            skip_slashes(p@) == skip_slashes(p@.subrange(i as int, n as int)),
        decreases n - i,
    {
        assert(p@.subrange(i as int, n as int).drop_first() =~= p@.subrange(i + 1, n as int));
        i = i + 1;
    }
    slice(p, i, n)
}

/// The destination-relative path of a member.
pub fn relative_path(p: &str) -> (r: String)
    ensures
        r@ == strip_first_component(p@),
{
    let n = p.unicode_len();
    proof {
        lemma_first_index_bounds(p@, '/');
    }
    match find_first(p, '/') {
        Some(k) => {
            let after = slice(p, k + 1, n);
            without_leading_slashes(after.as_str())
        },
        None => String::new(),
    }
}

/// The write steps that unpack `members` into a destination directory:
/// members other than regular files and directories are dropped, and each
/// path loses its first component. `None` where a written member's path is
/// not UTF-8.
pub fn plan_extraction(members: Vec<ArchiveEntry>) -> (r: Option<Vec<WriteOp>>)
    ensures
        match r {
            Some(ops) => planned(members@.map_values(|e: ArchiveEntry| entry_view(e))) == Some(ops@.map_values(
                |op: WriteOp| op_view(op),
            )),
            None => planned(members@.map_values(|e: ArchiveEntry| entry_view(e))) is None,
        },
{
    let ghost all = members@.map_values(|e: ArchiveEntry| entry_view(e));
    let ghost n = members@.len();
    let mut rest = members;
    let mut ops: Vec<WriteOp> = Vec::new();
    let mut failed = false;
    let ghost mut i: int = 0;
    assert(all.subrange(0, 0) =~= Seq::<(u8, Option<Seq<char>>, Seq<u8>)>::empty());
    while rest.len() > 0
        invariant
            all.len() == n,
            0 <= i <= n,
            rest@.len() == n - i,
            forall|j: int| 0 <= j < rest@.len() ==> entry_view(#[trigger] rest@[j]) == all[i + j],
            failed ==> planned(all.subrange(0, i)) is None,
            !failed ==> planned(all.subrange(0, i)) == Some(ops@.map_values(|op: WriteOp| op_view(op))),
        decreases rest.len(),
    {
        let ghost before = rest@;
        let ghost done = ops@;
        let e = rest.remove(0);
        assert(entry_view(before[0]) == all[i]);
        assert forall|j: int| 0 <= j < rest@.len() implies entry_view(#[trigger] rest@[j]) == all[i + 1 + j] by {
            assert(rest@[j] == before[j + 1]);
        }
        assert(all.subrange(0, i + 1).drop_last() =~= all.subrange(0, i));
        assert(all.subrange(0, i + 1).last() == all[i]);
        if e.kind == 53 || e.kind == 48 {
            match e.path {
                None => {
                    failed = true;
                },
                Some(p) => {
                    if !failed {
                        let rel = relative_path(p.as_str());
                        if e.kind == 53 {
                            ops.push(WriteOp::CreateDir(rel));
                        } else {
                            ops.push(WriteOp::WriteFile(rel, e.data));
                        }
                        assert(ops@.map_values(|op: WriteOp| op_view(op)) =~= done.map_values(|op: WriteOp| op_view(op)).push(
                            target(all[i]),
                        ));
                    }
                },
            }
        }
        proof {
            i = i + 1;
        }
    }
    assert(all.subrange(0, n as int) =~= all);
    if failed {
        None
    } else {
        Some(ops)
    }
}

/// Decompresses a tarball and plans its unpacking; fails where the stream is
/// not gzip, the archive inside cannot be read, or a member to be written has
/// a path that is not UTF-8.
pub fn unpack_tarball(tgz: &Vec<u8>) -> (r: Result<Vec<WriteOp>, DownloadError>)
    ensures
        match r {
            Ok(ops) => match gunzip_of(tgz@) {
                Some(t) => tar_members_of(t) matches Some(m) && planned(m) == Some(ops@.map_values(|op: WriteOp| op_view(op))),
                None => false,
            },
            Err(e) => e is ExtractionFailed && (gunzip_of(tgz@) matches Some(t) ==> (tar_members_of(t) matches Some(m) ==> planned(m) is None)),
        },
{
    match gunzip(tgz) {
        None => Err(DownloadError::ExtractionFailed("the tarball is not a gzip stream".to_owned())),
        Some(tar_bytes) => match tar_members(&tar_bytes) {
            None => Err(DownloadError::ExtractionFailed("the archive cannot be read".to_owned())),
            Some(members) => match plan_extraction(members) {
                Some(ops) => Ok(ops),
                None => Err(DownloadError::ExtractionFailed("a member's path is not UTF-8".to_owned())),
            },
        },
    }
}

} // verus!

use vstd::prelude::*;
use crate::cache::{modules_path, under_modules};
use crate::json::{Json, member, member_in, text_of};
use crate::manifest::{dependency_removed, remove_from_json};
use crate::text::{find_pattern, first_match, join2};

verus! {

/// What uninstalling a package does: the local directory and the cache
/// directories to delete (where they exist), and the manifest without it.
#[derive(Debug)]
pub struct Uninstall {
    pub local_dir: String,
    pub cache_dirs: Vec<String>,
    pub manifest: Json,
}

/// The cache directories that uninstalling `name` deletes: the one of its
/// declared version, or, without a declared version, every directory of the
/// cache whose name contains `name`.
pub open spec fn cache_targets(manifest: Json, name: Seq<char>, cache_dir: Seq<char>, entries: Seq<String>) -> Seq<Seq<char>> {
    match text_of(member_in(member(manifest, "dependencies"@), name)) {
        Some(v) => seq![cache_dir + "/"@ + name + "/"@ + v],
        None => containing(entries, name).map_values(|e: Seq<char>| cache_dir + "/"@ + e),
    }
}

/// The names among `entries` that contain `name`, in order.
pub open spec fn containing(entries: Seq<String>, name: Seq<char>) -> Seq<Seq<char>>
    decreases entries.len(),
{
    if entries.len() == 0 {
        Seq::empty()
    } else {
        let rest = containing(entries.drop_last(), name);
        if first_match(entries.last()@, name) >= 0 {
            rest.push(entries.last()@)
        } else {
            rest
        }
    }
}

/// Uninstalls `package_name` from the project at `current_dir`, whose
/// manifest is `manifest`, with the cache at `cache_dir` holding the
/// directories `cache_entries`.
pub fn uninstall(
    package_name: &str,
    current_dir: &str,
    cache_dir: &str,
    manifest: Json,
    cache_entries: &Vec<String>,
) -> (r: Uninstall)
    ensures
        r.local_dir@ == under_modules(current_dir@, package_name@),
        r.cache_dirs@.map_values(|d: String| d@) == cache_targets(manifest, package_name@, cache_dir@, cache_entries@),
        dependency_removed(manifest, r.manifest, package_name@),
{
    let local_dir = modules_path(current_dir, package_name);
    let mut cache_dirs: Vec<String> = Vec::new();
    let declared = match manifest.get("dependencies") {
        Some(deps) => match deps.get(package_name) {
            Some(v) => match v.as_str() {
                Some(t) => Some(t.clone()),
                None => None,
            },
            None => None,
        },
        None => None,
    };
    let base = join2(cache_dir, "/");
    match declared {
        Some(v) => {
            let a = join2(base.as_str(), package_name);
            let b = join2(a.as_str(), "/");
            cache_dirs.push(join2(b.as_str(), v.as_str()));
            assert(cache_dirs@.map_values(|d: String| d@) =~= seq![cache_dir@ + "/"@ + package_name@ + "/"@ + v@]);
        },
        None => {
            let mut i: usize = 0;
            assert(cache_entries@.subrange(0, 0) =~= Seq::<String>::empty());
            while i < cache_entries.len()
                invariant
                    i <= cache_entries@.len(),
                    base@ == cache_dir@ + "/"@,
                    cache_dirs@.map_values(|d: String| d@) == containing(cache_entries@.subrange(0, i as int), package_name@).map_values(
                        |e: Seq<char>| cache_dir@ + "/"@ + e,
                    ),
                decreases cache_entries@.len() - i,
            {
                assert(cache_entries@.subrange(0, i + 1).drop_last() =~= cache_entries@.subrange(0, i as int));
                let ghost before = cache_dirs@;
                let ghost found = containing(cache_entries@.subrange(0, i as int), package_name@);
                if find_pattern(cache_entries[i].as_str(), package_name).is_some() {
                    let d = join2(base.as_str(), cache_entries[i].as_str());
                    assert(d@ == cache_dir@ + "/"@ + cache_entries@[i as int]@);
                    cache_dirs.push(d);
                    assert(cache_dirs@ == before.push(d));
                    assert(found.push(cache_entries@[i as int]@).map_values(|e: Seq<char>| cache_dir@ + "/"@ + e) =~= found.map_values(
                        |e: Seq<char>| cache_dir@ + "/"@ + e,
                    ).push(d@));
                    assert(cache_dirs@.map_values(|d: String| d@) =~= found.push(cache_entries@[i as int]@).map_values(
                        |e: Seq<char>| cache_dir@ + "/"@ + e,
                    ));
                }
                i = i + 1;
            }
            assert(cache_entries@.subrange(0, cache_entries@.len() as int) =~= cache_entries@);
        },
    }
    let (doc, _) = remove_from_json(manifest, package_name);
    Uninstall { local_dir, cache_dirs, manifest: doc }
}

} // verus!

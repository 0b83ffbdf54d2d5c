use vstd::prelude::*;
use crate::cache::{modules_path, under_modules};
use crate::json::Json;
use crate::manifest::{declares, dependency_removed, remove_from_json};

verus! {

/// What removing a package from a project does: the local directory to
/// delete (where it exists) and the manifest to write back without the
/// package (none where the project has no manifest).
#[derive(Debug)]
pub struct Removal {
    pub local_dir: String,
    pub manifest: Option<Json>,
    pub was_declared: bool,
}

/// Removes `package_name` from the project at `current_dir` whose manifest
/// is `manifest` (`None` where it has none). Neither transitive dependencies
/// nor the shared cache are touched; a package that was never installed
/// leaves the manifest as it was, and a missing manifest stays missing.
pub fn remove(package_name: &str, current_dir: &str, manifest: Option<Json>) -> (r: Removal)
    ensures
        r.local_dir@ == under_modules(current_dir@, package_name@),
        match manifest {
            Some(m) => (r.manifest matches Some(after) && dependency_removed(m, after, package_name@))
                && r.was_declared == declares(m, package_name@),
            None => r.manifest is None && !r.was_declared,
        },
{
    let local_dir = modules_path(current_dir, package_name);
    match manifest {
        Some(m) => {
            let (doc, was_declared) = remove_from_json(m, package_name);
            Removal { local_dir, manifest: Some(doc), was_declared }
        },
        None => Removal { local_dir, manifest: None, was_declared: false },
    }
}

} // verus!

use vstd::prelude::*;
use crate::cache::{modules_path, under_modules};
use crate::json::{Json, lookup, member, members_of, text_of};
use crate::text::same_text;

verus! {

/// How a package stands in a project.
#[derive(Debug, Clone, Copy, PartialEq, Eq)]
pub enum PackageStatus {
    Installed,
    NotInstalled,
    Outdated,
    MalformedDependencies,
    FoundInNodeModules,
    NotFoundInNodeModules,
}

/// The status that a manifest or lockfile document gives `name` at
/// `version`: the lockfile is read under `dependencies`, the manifest under
/// `devDependencies`.
pub open spec fn status_in(doc: Json, name: Seq<char>, version: Seq<char>, is_lock_file: bool) -> PackageStatus {
    let key = if is_lock_file { "dependencies"@ } else { "devDependencies"@ };
    match members_of(member(doc, key)) {
        Some(d) => match text_of(lookup(d, name)) {
            Some(v) => if v == version {
                PackageStatus::Installed
            } else {
                PackageStatus::Outdated
            },
            None => PackageStatus::NotInstalled,
        },
        None => PackageStatus::MalformedDependencies,
    }
}

/// The status of `name` at `version` in one document.
pub fn check_in_json(doc: &Json, package_name: &str, version: &str, is_lock_file: bool) -> (r: PackageStatus)
    ensures
        r == status_in(*doc, package_name@, version@, is_lock_file),
{
    let key = if is_lock_file { "dependencies" } else { "devDependencies" };
    match doc.get(key) {
        Some(Json::Object(d)) => match crate::json::find(d, package_name) {
            Some(v) => match v.as_str() {
                Some(t) => if same_text(t.as_str(), version) {
                    PackageStatus::Installed
                } else {
                    PackageStatus::Outdated
                },
                None => PackageStatus::NotInstalled,
            },
            None => PackageStatus::NotInstalled,
        },
        _ => PackageStatus::MalformedDependencies,
    }
}

/// The status of `name` at `version` in a project: from its lockfile where
/// one was read, else from its manifest where one was read, else from
/// whether its dependency directory has an entry of that name.
pub fn check_package_status(
    package_name: &str,
    version: &str,
    lock: Option<&Json>,
    manifest: Option<&Json>,
    in_node_modules: bool,
) -> (r: PackageStatus)
    ensures
        r == match lock {
            Some(l) => status_in(*l, package_name@, version@, true),
            None => match manifest {
                Some(m) => status_in(*m, package_name@, version@, false),
                None => if in_node_modules {
                    PackageStatus::FoundInNodeModules
                } else {
                    PackageStatus::NotFoundInNodeModules
                },
            },
        },
{
    if let Some(l) = lock {
        return check_in_json(l, package_name, version, true);
    }
    if let Some(m) = manifest {
        return check_in_json(m, package_name, version, false);
    }
    if in_node_modules {
        PackageStatus::FoundInNodeModules
    } else {
        PackageStatus::NotFoundInNodeModules
    }
}

/// Relies on `std::path::Path::exists`: whether something is at `path` now.
/// What is on disk can change at any time, so nothing is promised of it.
#[verifier::external_body]
fn path_exists(path: &str) -> (r: bool) {
    std::path::Path::new(path).exists()
}

/// The entry of `package_name` in the dependency directory of a project.
pub fn node_modules_entry(package_name: &str, current_dir: &str) -> (r: String)
    ensures
        r@ == under_modules(current_dir@, package_name@),
{
    modules_path(current_dir, package_name)
}

/// Whether the dependency directory of the project at `current_dir` has an
/// entry for `package_name`.
pub fn check_in_node_modules(package_name: &str, current_dir: &str) -> bool {
    let entry = node_modules_entry(package_name, current_dir);
    path_exists(entry.as_str())
}

} // verus!

use vstd::prelude::*;
use crate::json::{
    Json, lemma_lookup_set, lookup, member, member_in, members_of, bind, take, text_of, without,
};

verus! {

/// Why a manifest or lockfile document could not be updated.
#[derive(Debug, Clone, PartialEq)]
pub enum ManifestError {
    InvalidPackageJson,
    InvalidPackageLock,
}

/// `after` holds the members of `before` under every key but `key`.
pub open spec fn others_kept(before: Seq<(String, Json)>, after: Seq<(String, Json)>, key: Seq<char>) -> bool {
    forall|k: Seq<char>| k != key ==> #[trigger] lookup(after, k) == lookup(before, k)
}

/// `after` is the object `before` (absent: empty) with `name` bound to a
/// JSON string holding `version`.
pub open spec fn binds_text(before: Option<Json>, after: Option<Json>, name: Seq<char>, version: Seq<char>) -> bool {
    &&& members_of(after) is Some
    &&& text_of(member_in(after, name)) == Some(version)
    &&& forall|k: Seq<char>| k != name ==> #[trigger] member_in(after, k) == member_in(before, k)
}

/// `doc` after recording dependency `name` at `version`: the `dependencies`
/// object keeps its other entries and binds `name`; where it is missing, or
/// is not an object, it becomes an object holding only `name`.
pub open spec fn dependency_added(doc: Json, after: Json, name: Seq<char>, version: Seq<char>) -> bool {
    &&& after is Object
    &&& forall|k: Seq<char>| k != "dependencies"@ ==> #[trigger] member(after, k) == member(doc, k)
    &&& match member(doc, "dependencies"@) {
        Some(Json::Object(d)) => binds_text(Some(Json::Object(d)), member(after, "dependencies"@), name, version),
        _ => binds_text(None, member(after, "dependencies"@), name, version),
    }
}

/// Records `name` at `version` in the `dependencies` of a manifest document,
/// overwriting an earlier entry of the same name.
pub fn add_dependency(doc: Json, name: &str, version: &str) -> (r: Result<Json, ManifestError>)
    ensures
        match r {
            Ok(after) => doc is Object && dependency_added(doc, after, name@, version@),
            Err(e) => !(doc is Object) && e is InvalidPackageJson,
        },
{
    match doc {
        Json::Object(members) => {
            let ghost before = members@;
            let (deps, rest) = take(members, "dependencies");
            let new_deps = match deps {
                Some(Json::Object(d)) => Json::Object(bind(d, name.to_owned(), Json::string(version))),
                _ => {
                    let d = bind(Vec::new(), name.to_owned(), Json::string(version));
                    Json::Object(d)
                },
            };
            let key = "dependencies".to_owned();
            proof {
                assert forall|k: Seq<char>| #[trigger] lookup(rest@.push((key, new_deps)), k) == (if k == key@ {
                    Some(new_deps)
                } else {
                    lookup(before, k)
                }) by {
                    lemma_lookup_set(before, key, new_deps, k);
                }
            }
            let mut out = rest;
            out.push((key, new_deps));
            Ok(Json::Object(out))
        },
        _ => Err(ManifestError::InvalidPackageJson),
    }
}

/// Removes `name` from the object under `key`, where that member is an
/// object; says whether `name` was bound there.
fn remove_within(members: Vec<(String, Json)>, key: &str, name: &str) -> (r: (Vec<(String, Json)>, bool))
    ensures
        others_kept(members@, r.0@, key@),
        match lookup(members@, key@) {
            Some(Json::Object(d)) => members_of(lookup(r.0@, key@)) == Some(without(d@, name@)) && r.1
                == (lookup(d@, name@) is Some),
            other => lookup(r.0@, key@) == other && !r.1,
        },
{
    let ghost before = members@;
    let (found, rest) = take(members, key);
    match found {
        Some(Json::Object(d)) => {
            let (was, kept) = take(d, name);
            let value = Json::Object(kept);
            let k = key.to_owned();
            proof {
                assert forall|o: Seq<char>| #[trigger] lookup(rest@.push((k, value)), o) == (if o == k@ {
                    Some(value)
                } else {
                    lookup(before, o)
                }) by {
                    lemma_lookup_set(before, k, value, o);
                }
            }
            let mut out = rest;
            out.push((k, value));
            (out, was.is_some())
        },
        Some(other) => {
            let k = key.to_owned();
            proof {
                assert forall|o: Seq<char>| #[trigger] lookup(rest@.push((k, other)), o) == (if o == k@ {
                    Some(other)
                } else {
                    lookup(before, o)
                }) by {
                    lemma_lookup_set(before, k, other, o);
                }
            }
            let mut out = rest;
            out.push((k, other));
            (out, false)
        },
        None => {
            proof {
                assert forall|o: Seq<char>| #[trigger] lookup(rest@, o) == (if o == key@ {
                    None
                } else {
                    lookup(before, o)
                }) by {
                    crate::json::lemma_lookup_without(before, key@, o);
                }
            }
            (rest, false)
        },
    }
}

/// What removing `name` leaves under `key` of a manifest document.
pub open spec fn stripped(doc: Json, after: Json, key: Seq<char>, name: Seq<char>) -> bool {
    match member(doc, key) {
        Some(Json::Object(d)) => members_of(member(after, key)) == Some(without(d@, name)),
        other => member(after, key) == other,
    }
}

/// Whether `name` is bound in the `dependencies` object of `doc`.
pub open spec fn declares(doc: Json, name: Seq<char>) -> bool {
    members_of(member(doc, "dependencies"@)) matches Some(d) && lookup(d, name) is Some
}

/// `after` is `doc` with `name` removed from its `dependencies` and
/// `devDependencies` objects and every other member kept; a document that is
/// not an object stays as it is.
pub open spec fn dependency_removed(doc: Json, after: Json, name: Seq<char>) -> bool {
    &&& doc is Object ==> {
        &&& after is Object
        &&& forall|k: Seq<char>| k != "dependencies"@ && k != "devDependencies"@ ==> #[trigger] member(after, k) == member(doc, k)
        &&& stripped(doc, after, "dependencies"@, name)
        &&& stripped(doc, after, "devDependencies"@, name)
    }
    &&& !(doc is Object) ==> after == doc
}

/// Removes `name` from the `dependencies` and `devDependencies` objects of a
/// manifest document; says whether `name` was in `dependencies`. Removing a
/// name that is not there changes nothing.
pub fn remove_from_json(doc: Json, package_name: &str) -> (r: (Json, bool))
    ensures
        dependency_removed(doc, r.0, package_name@),
        r.1 == declares(doc, package_name@),
{
    proof {
        reveal_strlit("dependencies");
        reveal_strlit("devDependencies");
    }
    assert("dependencies"@[2] != "devDependencies"@[2]);
    match doc {
        Json::Object(members) => {
            let (m1, was) = remove_within(members, "dependencies", package_name);
            let (m2, _) = remove_within(m1, "devDependencies", package_name);
            (Json::Object(m2), was)
        },
        other => (other, false),
    }
}

/// Recording the same dependency twice leaves the manifest as recording it
/// once does: every member and every dependency entry agree.
pub proof fn law_add_dependency_idempotent(d0: Json, d1: Json, d2: Json, name: Seq<char>, version: Seq<char>)
    requires
        dependency_added(d0, d1, name, version),
        dependency_added(d1, d2, name, version),
    ensures
        forall|k: Seq<char>| k != "dependencies"@ ==> #[trigger] member(d2, k) == member(d1, k),
        forall|k: Seq<char>| k != name ==> #[trigger] member_in(member(d2, "dependencies"@), k) == member_in(
            member(d1, "dependencies"@),
            k,
        ),
        text_of(member_in(member(d2, "dependencies"@), name)) == text_of(member_in(member(d1, "dependencies"@), name)),
{
    match member(d0, "dependencies"@) {
        Some(Json::Object(_)) => {},
        _ => {},
    }
}

/// Writing the same lockfile entry twice leaves the lockfile as writing it
/// once does.
pub proof fn law_lock_entry_idempotent(
    l0: Json,
    l1: Json,
    l2: Json,
    name: Seq<char>,
    version: Seq<char>,
    resolved: Seq<char>,
)
    requires
        lock_recorded(l0, l1, name, version, resolved),
        lock_recorded(l1, l2, name, version, resolved),
    ensures
        forall|k: Seq<char>| k != "dependencies"@ ==> #[trigger] member(l2, k) == member(l1, k),
        forall|k: Seq<char>| k != name ==> #[trigger] member_in(member(l2, "dependencies"@), k) == member_in(
            member(l1, "dependencies"@),
            k,
        ),
        member_in(member(l2, "dependencies"@), name) matches Some(e) && is_lock_entry(e, version, resolved),
        member_in(member(l1, "dependencies"@), name) matches Some(e) && is_lock_entry(e, version, resolved),
{
}

/// Removing a package after adding it takes it out of `dependencies` and
/// leaves every other dependency and every other member as before the add.
pub proof fn law_remove_after_add(d0: Json, d1: Json, d2: Json, name: Seq<char>, version: Seq<char>)
    requires
        d0 is Object,
        dependency_added(d0, d1, name, version),
        dependency_removed(d1, d2, name),
    ensures
        !declares(d2, name),
        forall|k: Seq<char>| k != "dependencies"@ && k != "devDependencies"@ ==> #[trigger] member(d2, k) == member(d0, k),
        forall|k: Seq<char>| k != name ==> #[trigger] member_in(member(d2, "dependencies"@), k) == member_in(
            member(d0, "dependencies"@),
            k,
        ),
{
    reveal_strlit("dependencies");
    reveal_strlit("devDependencies");
    assert("dependencies"@[2] != "devDependencies"@[2]);
    let d = members_of(member(d1, "dependencies"@)).unwrap();
    assert forall|k: Seq<char>| k != name implies #[trigger] member_in(member(d2, "dependencies"@), k) == member_in(
        member(d0, "dependencies"@),
        k,
    ) by {
        crate::json::lemma_lookup_without(d, name, k);
        assert(member_in(member(d1, "dependencies"@), k) == member_in(member(d0, "dependencies"@), k));
        assert(member_in(member(d1, "dependencies"@), k) == lookup(d, k));
    }
    crate::json::lemma_lookup_without(d, name, name);
}

/// Removing a package that the manifest does not hold changes no lookup.
pub proof fn law_remove_absent_is_noop(d0: Json, d1: Json, name: Seq<char>)
    requires
        dependency_removed(d0, d1, name),
        member_in(member(d0, "dependencies"@), name) is None,
        member_in(member(d0, "devDependencies"@), name) is None,
    ensures
        forall|k: Seq<char>| #[trigger] member(d1, k) == member(d0, k) || (members_of(member(d0, k)) is Some
            && forall|j: Seq<char>| #[trigger] member_in(member(d1, k), j) == member_in(member(d0, k), j)),
{
    reveal_strlit("dependencies");
    reveal_strlit("devDependencies");
    assert("dependencies"@[2] != "devDependencies"@[2]);
    if d0 is Object {
        assert forall|k: Seq<char>| #[trigger] member(d1, k) == member(d0, k) || (members_of(member(d0, k)) is Some
            && forall|j: Seq<char>| #[trigger] member_in(member(d1, k), j) == member_in(member(d0, k), j)) by {
            if (k == "dependencies"@ || k == "devDependencies"@) && members_of(member(d0, k)) is Some {
                let d = members_of(member(d0, k)).unwrap();
                assert forall|j: Seq<char>| #[trigger] member_in(member(d1, k), j) == member_in(member(d0, k), j) by {
                    crate::json::lemma_lookup_without(d, name, j);
                }
            }
        }
    }
}

/// Installing into a project whose manifest is `{}` and which has no
/// lockfile leaves a manifest whose only member is `dependencies`, holding
/// only `name` at `version`, and a lockfile whose entry for `name` carries
/// the resolved tarball address.
pub proof fn law_first_install_from_empty(
    m0: Json,
    m1: Json,
    base: Json,
    l1: Json,
    name: Seq<char>,
    version: Seq<char>,
    resolved: Seq<char>,
)
    requires
        m0 is Object,
        forall|k: Seq<char>| #[trigger] member(m0, k) is None,
        dependency_added(m0, m1, name, version),
        is_fresh_lock(base, name),
        lock_recorded(base, l1, name, version, resolved),
    ensures
        forall|k: Seq<char>| k != "dependencies"@ ==> #[trigger] member(m1, k) is None,
        text_of(member_in(member(m1, "dependencies"@), name)) == Some(version),
        forall|k: Seq<char>| k != name ==> #[trigger] member_in(member(m1, "dependencies"@), k) is None,
        member_in(member(l1, "dependencies"@), name) matches Some(e) && is_lock_entry(e, version, resolved),
        forall|k: Seq<char>| k != name ==> #[trigger] member_in(member(l1, "dependencies"@), k) is None,
{
    assert(member(m0, "dependencies"@) is None);
    assert forall|k: Seq<char>| k != name implies #[trigger] member_in(member(l1, "dependencies"@), k) is None by {
        assert(member_in(member(base, "dependencies"@), k) == lookup(Seq::<(String, Json)>::empty(), k));
    }
}

/// The lockfile document started for a project named `name`.
pub open spec fn is_fresh_lock(j: Json, name: Seq<char>) -> bool {
    &&& j is Object
    &&& text_of(member(j, "name"@)) == Some(name)
    &&& text_of(member(j, "version"@)) == Some("1.0.0"@)
    &&& member(j, "lockfileVersion"@) matches Some(Json::Number(t)) && t@ == "3"@
    &&& member(j, "requires"@) == Some(Json::Bool(true))
    &&& members_of(member(j, "dependencies"@)) == Some(Seq::<(String, Json)>::empty())
}

/// A fresh lockfile document for a project named `name`, with no entries.
pub fn default_lock(name: &str) -> (r: Json)
    ensures
        is_fresh_lock(r, name@),
{
    proof {
        reveal_strlit("name");
        reveal_strlit("version");
        reveal_strlit("lockfileVersion");
        reveal_strlit("requires");
        reveal_strlit("dependencies");
    }
    let m0: Vec<(String, Json)> = Vec::new();
    let m1 = bind(m0, "name".to_owned(), Json::string(name));
    let m2 = bind(m1, "version".to_owned(), Json::string("1.0.0"));
    let m3 = bind(m2, "lockfileVersion".to_owned(), Json::Number("3".to_owned()));
    let m4 = bind(m3, "requires".to_owned(), Json::Bool(true));
    let m = bind(m4, "dependencies".to_owned(), Json::Object(Vec::new()));
    assert("name"@[0] == 'n' && "version"@[0] == 'v' && "lockfileVersion"@[0] == 'l');
    assert("requires"@[0] == 'r' && "dependencies"@[0] == 'd');
    assert(text_of(lookup(m1@, "name"@)) == Some(name@));
    assert(text_of(lookup(m@, "name"@)) == Some(name@));
    assert(text_of(lookup(m@, "version"@)) == Some("1.0.0"@));
    Json::Object(m)
}

/// The lockfile document to update: the one on disk, or a fresh one named
/// after the package being recorded.
pub fn lock_or_default(lock: Option<Json>, name: &str) -> (r: Json)
    ensures
        match lock {
            Some(d) => r == d,
            None => is_fresh_lock(r, name@),
        },
{
    match lock {
        Some(d) => d,
        None => default_lock(name),
    }
}

/// A lockfile entry: exactly `version`, `resolved` and `dependencies`.
pub open spec fn is_lock_entry(e: Json, version: Seq<char>, resolved: Seq<char>) -> bool {
    &&& e is Object
    &&& text_of(member(e, "version"@)) == Some(version)
    &&& text_of(member(e, "resolved"@)) == Some(resolved)
    &&& member(e, "dependencies"@) is Some
    &&& forall|k: Seq<char>| k != "version"@ && k != "resolved"@ && k != "dependencies"@ ==> #[trigger] member(e, k) is None
}

/// Whether `lock` is an object whose `dependencies` member is an object.
pub open spec fn lock_well_formed(lock: Json) -> bool {
    members_of(member(lock, "dependencies"@)) is Some
}

/// `after` is the lockfile `before` with the entry of `name` set to
/// `version` at `resolved`, with an empty `dependencies` object.
pub open spec fn lock_recorded(before: Json, after: Json, name: Seq<char>, version: Seq<char>, resolved: Seq<char>) -> bool {
    &&& lock_well_formed(after)
    &&& forall|k: Seq<char>| k != "dependencies"@ ==> #[trigger] member(after, k) == member(before, k)
    &&& member_in(member(after, "dependencies"@), name) matches Some(e) && (is_lock_entry(e, version, resolved)
        && members_of(member(e, "dependencies"@)) == Some(Seq::<(String, Json)>::empty()))
    &&& forall|k: Seq<char>| k != name ==> #[trigger] member_in(member(after, "dependencies"@), k) == member_in(member(before, "dependencies"@), k)
}

/// `after` is the lockfile `before` with the entry of `name` set to
/// `version` at `resolved` with `nested` as its dependencies.
pub open spec fn lock_written(before: Json, after: Json, name: Seq<char>, version: Seq<char>, resolved: Seq<char>, nested: Json) -> bool {
    &&& after is Object
    &&& forall|k: Seq<char>| k != "dependencies"@ ==> #[trigger] member(after, k) == member(before, k)
    &&& members_of(member(after, "dependencies"@)) is Some
    &&& member_in(member(after, "dependencies"@), name) matches Some(e) && (is_lock_entry(e, version, resolved)
        && member(e, "dependencies"@) == Some(nested))
    &&& forall|k: Seq<char>| k != name ==> #[trigger] member_in(member(after, "dependencies"@), k) == member_in(member(before, "dependencies"@), k)
}

/// Writes the entry of `name` into the `dependencies` of a lockfile document,
/// replacing an earlier one; fails where the document is not an object with a
/// `dependencies` object.
pub fn upsert_lock_entry(lock: Json, name: &str, version: &str, resolved: &str, nested: Json) -> (r: Result<Json, ManifestError>)
    ensures
        match r {
            Ok(after) => lock_well_formed(lock) && lock_written(lock, after, name@, version@, resolved@, nested),
            Err(e) => !lock_well_formed(lock) && e is InvalidPackageLock,
        },
{
    match lock {
        Json::Object(members) => {
            let ghost before = members@;
            let (deps, rest) = take(members, "dependencies");
            match deps {
                Some(Json::Object(d)) => {
                    proof {
                        reveal_strlit("version");
                        reveal_strlit("resolved");
                        reveal_strlit("dependencies");
                    }
                    assert("version"@[0] == 'v' && "resolved"@[0] == 'r' && "dependencies"@[0] == 'd');
                    let mut e: Vec<(String, Json)> = Vec::new();
                    e = bind(e, "version".to_owned(), Json::string(version));
                    e = bind(e, "resolved".to_owned(), Json::string(resolved));
                    e = bind(e, "dependencies".to_owned(), nested);
                    let entry = Json::Object(e);
                    let new_deps = Json::Object(bind(d, name.to_owned(), entry));
                    let key = "dependencies".to_owned();
                    proof {
                        assert forall|k: Seq<char>| #[trigger] lookup(rest@.push((key, new_deps)), k) == (if k == key@ {
                            Some(new_deps)
                        } else {
                            lookup(before, k)
                        }) by {
                            lemma_lookup_set(before, key, new_deps, k);
                        }
                    }
                    let mut out = rest;
                    out.push((key, new_deps));
                    Ok(Json::Object(out))
                },
                _ => Err(ManifestError::InvalidPackageLock),
            }
        },
        _ => Err(ManifestError::InvalidPackageLock),
    }
}


/// Records `package_name` in the manifest's dependencies with the version
/// range `*`.
pub fn add_to_package_json(doc: Json, package_name: &str) -> (r: Result<Json, ManifestError>)
    ensures
        match r {
            Ok(after) => doc is Object && dependency_added(doc, after, package_name@, "*"@),
            Err(e) => !(doc is Object) && e is InvalidPackageJson,
        },
{
    add_dependency(doc, package_name, "*")
}

/// Writes the lockfile entry of `package_name`: into `lock`, or into a fresh
/// lockfile named after the package where there is none.
pub fn add_to_package_lock_json(
    lock: Option<Json>,
    package_name: &str,
    version: &str,
    resolved: &str,
    dependencies: Json,
) -> (r: Result<Json, ManifestError>)
    ensures
        match lock {
            Some(l) => match r {
                Ok(after) => lock_well_formed(l) && lock_written(l, after, package_name@, version@, resolved@, dependencies),
                Err(e) => !lock_well_formed(l) && e is InvalidPackageLock,
            },
            None => r matches Ok(after) && exists|base: Json| #[trigger] is_fresh_lock(base, package_name@) && lock_written(base, after, package_name@, version@, resolved@, dependencies),
        },
{
    let base = lock_or_default(lock, package_name);
    let ghost b = base;
    let r = upsert_lock_entry(base, package_name, version, resolved, dependencies);
    proof {
        if lock is None {
            assert(is_fresh_lock(b, package_name@));
            assert(members_of(member(b, "dependencies"@)) is Some);
        }
    }
    r
}

/// The name a bare lockfile takes: the manifest's `name` where a manifest
/// was read, the project folder's name otherwise.
pub open spec fn bare_lock_name(manifest: Option<Json>, folder_name: Seq<char>) -> Option<Seq<char>> {
    match manifest {
        Some(m) => text_of(member(m, "name"@)),
        None => Some(folder_name),
    }
}

/// The bare lockfile of a project; `None` where the manifest has no string
/// `name`.
pub fn create_bare_package_lock_json(manifest: Option<&Json>, folder_name: &str) -> (r: Option<Json>)
    ensures
        match r {
            Some(l) => bare_lock_name(match manifest {
                Some(m) => Some(*m),
                None => None,
            }, folder_name@) matches Some(n) && is_fresh_lock(l, n),
            None => bare_lock_name(match manifest {
                Some(m) => Some(*m),
                None => None,
            }, folder_name@) is None,
        },
{
    match manifest {
        Some(m) => match m.get("name") {
            Some(n) => match n.as_str() {
                Some(t) => Some(default_lock(t.as_str())),
                None => None,
            },
            None => None,
        },
        None => Some(default_lock(folder_name)),
    }
}

/// The manifest of a new project: an empty object.
pub fn create_bare_package_json() -> (r: Json)
    ensures
        members_of(Some(r)) == Some(Seq::<(String, Json)>::empty()),
{
    Json::Object(Vec::new())
}

} // verus!

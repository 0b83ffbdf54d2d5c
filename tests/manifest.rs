use qnpm::json::Json;
use qnpm::manifest::{
    add_dependency, add_to_package_json, add_to_package_lock_json, create_bare_package_json,
    create_bare_package_lock_json, default_lock, remove_from_json, upsert_lock_entry, ManifestError,
};
use qnpm::remove::remove;

fn obj(members: Vec<(&str, Json)>) -> Json {
    Json::Object(members.into_iter().map(|(k, v)| (k.to_string(), v)).collect())
}

fn text(s: &str) -> Json {
    Json::Str(s.to_string())
}

fn dep<'a>(doc: &'a Json, name: &str) -> Option<&'a Json> {
    doc.get("dependencies").and_then(|d| d.get(name))
}

#[test]
fn add_creates_the_dependencies_object() {
    let after = add_dependency(obj(vec![]), "left-pad", "1.3.0").unwrap();
    assert_eq!(after, obj(vec![("dependencies", obj(vec![("left-pad", text("1.3.0"))]))]));
}

#[test]
fn add_overwrites_and_keeps_other_members() {
    let doc = obj(vec![
        ("name", text("app")),
        ("dependencies", obj(vec![("a", text("1.0.0")), ("b", text("2.0.0"))])),
    ]);
    let after = add_dependency(doc, "a", "1.1.0").unwrap();
    assert_eq!(after.get("name"), Some(&text("app")));
    assert_eq!(dep(&after, "a"), Some(&text("1.1.0")));
    assert_eq!(dep(&after, "b"), Some(&text("2.0.0")));
    let count = match after.get("dependencies") {
        Some(Json::Object(m)) => m.len(),
        _ => 0,
    };
    assert_eq!(count, 2);
}

#[test]
fn add_twice_is_idempotent() {
    let once = add_dependency(obj(vec![("name", text("app"))]), "x", "1.0.0").unwrap();
    let twice = add_dependency(add_dependency(obj(vec![("name", text("app"))]), "x", "1.0.0").unwrap(), "x", "1.0.0").unwrap();
    assert_eq!(once, twice);
}

#[test]
fn add_to_non_object_manifest_fails() {
    assert_eq!(add_dependency(Json::Array(vec![]), "x", "1"), Err(ManifestError::InvalidPackageJson));
}

#[test]
fn add_replaces_non_object_dependencies() {
    let after = add_dependency(obj(vec![("dependencies", text("odd"))]), "x", "1").unwrap();
    assert_eq!(after, obj(vec![("dependencies", obj(vec![("x", text("1"))]))]));
    let again = add_to_package_json(obj(vec![("dependencies", Json::Array(vec![]))]), "y").unwrap();
    assert_eq!(dep(&again, "y"), Some(&text("*")));
}

#[test]
fn add_to_package_json_uses_star() {
    let after = add_to_package_json(obj(vec![]), "left-pad").unwrap();
    assert_eq!(dep(&after, "left-pad"), Some(&text("*")));
}

#[test]
fn remove_after_add_restores_dependencies() {
    let doc = obj(vec![("name", text("app")), ("dependencies", obj(vec![("keep", text("1.0.0"))]))]);
    let added = add_dependency(doc, "x", "2.0.0").unwrap();
    let (after, was) = remove_from_json(added, "x");
    assert!(was);
    assert_eq!(after.get("name"), Some(&text("app")));
    assert_eq!(dep(&after, "x"), None);
    assert_eq!(dep(&after, "keep"), Some(&text("1.0.0")));
}

#[test]
fn remove_absent_is_a_no_op() {
    let doc = obj(vec![("dependencies", obj(vec![("keep", text("1.0.0"))]))]);
    let (after, was) = remove_from_json(doc, "never");
    assert!(!was);
    assert_eq!(after, obj(vec![("dependencies", obj(vec![("keep", text("1.0.0"))]))]));
    let (same, was2) = remove_from_json(obj(vec![]), "never");
    assert!(!was2);
    assert_eq!(same, obj(vec![]));
}

#[test]
fn remove_strips_dev_dependencies_too() {
    let doc = obj(vec![
        ("dependencies", obj(vec![("x", text("1"))])),
        ("devDependencies", obj(vec![("x", text("1")), ("y", text("2"))])),
    ]);
    let (after, was) = remove_from_json(doc, "x");
    assert!(was);
    assert_eq!(after.get("devDependencies"), Some(&obj(vec![("y", text("2"))])));
    assert_eq!(after.get("dependencies"), Some(&obj(vec![])));
}

#[test]
fn remove_from_non_object_keeps_it() {
    let (after, was) = remove_from_json(Json::Null, "x");
    assert!(!was);
    assert_eq!(after, Json::Null);
}

#[test]
fn remove_names_the_local_directory() {
    let doc = obj(vec![("dependencies", obj(vec![("x", text("1")), ("y", text("2"))]))]);
    let r = remove("x", "/proj", Some(doc));
    assert_eq!(r.local_dir, "/proj/node_modules/x");
    assert!(r.was_declared);
    assert_eq!(r.manifest, Some(obj(vec![("dependencies", obj(vec![("y", text("2"))]))])));
}

#[test]
fn remove_without_manifest_writes_nothing() {
    let r = remove("x", "/proj", None);
    assert_eq!(r.local_dir, "/proj/node_modules/x");
    assert!(!r.was_declared);
    assert!(r.manifest.is_none());
}

#[test]
fn remove_never_installed_from_empty_manifest() {
    let r = remove("x", "/proj", Some(obj(vec![])));
    assert!(!r.was_declared);
    assert_eq!(r.manifest, Some(obj(vec![])));
}

#[test]
fn fresh_lock_has_default_fields() {
    let l = default_lock("app");
    assert_eq!(l.get("name"), Some(&text("app")));
    assert_eq!(l.get("version"), Some(&text("1.0.0")));
    assert_eq!(l.get("lockfileVersion"), Some(&Json::Number("3".to_string())));
    assert_eq!(l.get("requires"), Some(&Json::Bool(true)));
    assert_eq!(l.get("dependencies"), Some(&obj(vec![])));
}

#[test]
fn lock_entry_is_inserted_then_overwritten() {
    let l = upsert_lock_entry(default_lock("app"), "a", "1.0.0", "https://x/a-1.0.0.tgz", obj(vec![])).unwrap();
    let l = upsert_lock_entry(l, "a", "1.1.0", "https://x/a-1.1.0.tgz", obj(vec![])).unwrap();
    let e = l.get("dependencies").and_then(|d| d.get("a")).unwrap();
    assert_eq!(e.get("version"), Some(&text("1.1.0")));
    assert_eq!(e.get("resolved"), Some(&text("https://x/a-1.1.0.tgz")));
    assert_eq!(e.get("dependencies"), Some(&obj(vec![])));
    assert_eq!(l.get("name"), Some(&text("app")));
}

#[test]
fn lock_without_dependencies_object_fails() {
    let r = upsert_lock_entry(obj(vec![("name", text("app"))]), "a", "1", "u", obj(vec![]));
    assert_eq!(r, Err(ManifestError::InvalidPackageLock));
    assert_eq!(upsert_lock_entry(Json::Null, "a", "1", "u", obj(vec![])), Err(ManifestError::InvalidPackageLock));
}

#[test]
fn missing_lock_starts_fresh_named_after_package() {
    let l = add_to_package_lock_json(None, "left-pad", "1.3.0", "https://x/left-pad-1.3.0.tgz", obj(vec![])).unwrap();
    assert_eq!(l.get("name"), Some(&text("left-pad")));
    assert_eq!(l.get("lockfileVersion"), Some(&Json::Number("3".to_string())));
    let e = l.get("dependencies").and_then(|d| d.get("left-pad")).unwrap();
    assert_eq!(e.get("resolved"), Some(&text("https://x/left-pad-1.3.0.tgz")));
}

#[test]
fn bare_documents() {
    assert_eq!(create_bare_package_json(), obj(vec![]));
    let from_manifest = create_bare_package_lock_json(Some(&obj(vec![("name", text("app"))])), "folder").unwrap();
    assert_eq!(from_manifest.get("name"), Some(&text("app")));
    let from_folder = create_bare_package_lock_json(None, "folder").unwrap();
    assert_eq!(from_folder.get("name"), Some(&text("folder")));
    assert!(create_bare_package_lock_json(Some(&obj(vec![])), "folder").is_none());
}

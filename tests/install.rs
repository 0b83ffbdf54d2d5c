use std::collections::HashSet;

use qnpm::install::{Action, Installer, Step};
use qnpm::json::Json;
use qnpm::manifest::ManifestError;
use qnpm::registry::{resolve, AddCommandError};

fn obj(members: Vec<(&str, Json)>) -> Json {
    Json::Object(members.into_iter().map(|(k, v)| (k.to_string(), v)).collect())
}

fn text(s: &str) -> Json {
    Json::Str(s.to_string())
}

fn names(list: &[&str]) -> Vec<String> {
    list.iter().map(|s| s.to_string()).collect()
}

/// Full metadata of a package with one release.
fn metadata(name: &str, version: &str) -> Json {
    let url = format!("https://registry.npmjs.org/{0}/-/{0}-{1}.tgz", name, version);
    obj(vec![
        ("dist-tags", obj(vec![("latest", text(version))])),
        ("versions", obj(vec![(version, obj(vec![("dist", obj(vec![("tarball", text(&url))]))]))])),
    ])
}

/// The manifest inside a package's tarball.
fn package_manifest(name: &str, deps: &[&str]) -> Json {
    obj(vec![
        ("name", text(name)),
        ("dependencies", obj(deps.iter().map(|d| (*d, text("^1.0.0"))).collect())),
    ])
}

struct Run {
    resolved: Vec<String>,
    skipped: Vec<String>,
    actions: Vec<Action>,
}

/// Drives a session to the end against a registry where each of `graph`'s
/// packages is at 1.0.0 and depends on the packages listed with it.
fn drive(inst: &mut Installer, graph: &[(&str, &[&str])], on_disk: &HashSet<String>, cache: &mut HashSet<String>) -> Run {
    let mut run = Run { resolved: vec![], skipped: vec![], actions: vec![] };
    let mut steps = 0;
    while let Some(req) = inst.next_request() {
        steps += 1;
        assert!(steps < 100, "the session does not terminate");
        let slot = inst.slot_path(&req);
        match inst.begin(&req, on_disk.contains(&slot)) {
            Step::AlreadyInstalled => run.skipped.push(req.name.clone()),
            Step::Resolve(url) => {
                run.resolved.push(url);
                let deps = graph.iter().find(|(n, _)| *n == req.name).map(|(_, d)| *d);
                let meta = match deps {
                    Some(_) => metadata(&req.name, "1.0.0"),
                    None => Json::Null,
                };
                match resolve(&req, &meta) {
                    Err(e) => inst.fail(&req.name, e),
                    Ok(pkg) => {
                        let dir = inst.cache_dir(&pkg);
                        let hit = cache.contains(&dir);
                        let action = inst.action_for(&pkg, hit);
                        inst.record(&req.name, &pkg);
                        cache.insert(dir);
                        run.actions.push(action);
                        let own = package_manifest(&req.name, deps.unwrap());
                        inst.discovered(Some(&own));
                    }
                }
            }
        }
    }
    run
}

#[test]
fn end_to_end_left_pad() {
    let mut inst = Installer::new("/proj", "/cache", obj(vec![]), None, &names(&["left-pad"])).unwrap();
    let mut cache = HashSet::new();
    let run = drive(&mut inst, &[("left-pad", &[])], &HashSet::new(), &mut cache);
    assert_eq!(run.resolved, vec!["https://registry.npmjs.org/left-pad".to_string()]);
    assert_eq!(
        run.actions,
        vec![Action::FetchThenLink {
            url: "https://registry.npmjs.org/left-pad/-/left-pad-1.0.0.tgz".to_string(),
            cache_dir: "/cache/node_modules/left-pad-1.0.0".to_string(),
            slot_dir: "/proj/node_modules/left-pad".to_string(),
        }]
    );
    assert_eq!(inst.manifest, obj(vec![("dependencies", obj(vec![("left-pad", text("1.0.0"))]))]));
    let lock = inst.lock.as_ref().unwrap();
    let entry = lock.get("dependencies").and_then(|d| d.get("left-pad")).unwrap();
    assert_eq!(entry.get("resolved"), Some(&text("https://registry.npmjs.org/left-pad/-/left-pad-1.0.0.tgz")));
    assert_eq!(entry.get("version"), Some(&text("1.0.0")));
    assert!(inst.failures.is_empty());
    assert!(inst.succeeded());
}

#[test]
fn cycle_terminates_and_revisit_is_immediate() {
    let graph: &[(&str, &[&str])] = &[("a", &["b"]), ("b", &["a"])];
    let mut inst = Installer::new("/proj", "/cache", obj(vec![]), None, &names(&["a"])).unwrap();
    let run = drive(&mut inst, graph, &HashSet::new(), &mut HashSet::new());
    assert_eq!(run.resolved.len(), 2);
    assert_eq!(run.skipped, vec!["a".to_string()]);
    assert!(inst.has_slot("a"));
    assert!(inst.has_slot("b"));
    assert!(inst.pending.is_empty());
}

#[test]
fn second_run_asks_the_registry_nothing() {
    let mut inst = Installer::new("/proj", "/cache", obj(vec![]), None, &names(&["x"])).unwrap();
    let mut cache = HashSet::new();
    drive(&mut inst, &[("x", &[])], &HashSet::new(), &mut cache);
    let manifest = std::mem::replace(&mut inst.manifest, Json::Null);
    let lock = inst.lock.take();
    let on_disk: HashSet<String> = ["/proj/node_modules/x".to_string()].into_iter().collect();
    let mut again = Installer::new("/proj", "/cache", manifest, lock, &names(&["x"])).unwrap();
    let run = drive(&mut again, &[("x", &[])], &on_disk, &mut cache);
    assert!(run.resolved.is_empty());
    assert_eq!(run.skipped, vec!["x".to_string()]);
    assert_eq!(again.manifest, obj(vec![("dependencies", obj(vec![("x", text("1.0.0"))]))]));
}

#[test]
fn shared_cache_is_populated_once() {
    let mut cache = HashSet::new();
    let mut one = Installer::new("/one", "/cache", obj(vec![]), None, &names(&["x"])).unwrap();
    let first = drive(&mut one, &[("x", &[])], &HashSet::new(), &mut cache);
    let mut two = Installer::new("/two", "/cache", obj(vec![]), None, &names(&["x"])).unwrap();
    let second = drive(&mut two, &[("x", &[])], &HashSet::new(), &mut cache);
    assert_eq!(cache.len(), 1);
    assert!(matches!(first.actions[0], Action::FetchThenLink { .. }));
    assert_eq!(
        second.actions,
        vec![Action::Link {
            cache_dir: "/cache/node_modules/x-1.0.0".to_string(),
            slot_dir: "/two/node_modules/x".to_string(),
        }]
    );
}

#[test]
fn failures_are_collected_and_siblings_go_on() {
    let mut inst = Installer::new("/proj", "/cache", obj(vec![]), None, &names(&["ok", "missing"])).unwrap();
    let run = drive(&mut inst, &[("ok", &[])], &HashSet::new(), &mut HashSet::new());
    assert_eq!(run.actions.len(), 1);
    assert!(!inst.succeeded());
    assert_eq!(inst.failures.len(), 1);
    assert_eq!(inst.failures[0], ("missing".to_string(), AddCommandError::NoValidTarballUrl("missing".to_string())));
}

#[test]
fn pinned_request_resolves_at_version_address() {
    let inst = Installer::new("/proj", "/cache", obj(vec![]), None, &names(&["a@2.0.0"])).unwrap();
    let req = &inst.pending[0];
    assert_eq!(inst.begin(req, false), Step::Resolve("https://registry.npmjs.org/a/2.0.0".to_string()));
}

#[test]
fn malformed_documents_are_refused() {
    let r = Installer::new("/p", "/c", Json::Null, None, &names(&["x"]));
    assert_eq!(r.err(), Some(ManifestError::InvalidPackageJson));
    let r = Installer::new("/p", "/c", obj(vec![]), Some(obj(vec![])), &names(&["x"]));
    assert_eq!(r.err(), Some(ManifestError::InvalidPackageLock));
}

#[test]
fn non_object_dependencies_are_replaced_on_record() {
    let manifest = obj(vec![("name", text("app")), ("dependencies", text("x"))]);
    let mut inst = Installer::new("/proj", "/cache", manifest, None, &names(&["left-pad"])).unwrap();
    drive(&mut inst, &[("left-pad", &[])], &HashSet::new(), &mut HashSet::new());
    assert_eq!(inst.manifest.get("dependencies"), Some(&obj(vec![("left-pad", text("1.0.0"))])));
    assert_eq!(inst.manifest.get("name"), Some(&text("app")));
}

#[test]
fn failed_resolution_records_nothing() {
    let mut inst = Installer::new("/proj", "/cache", obj(vec![]), None, &names(&["missing"])).unwrap();
    drive(&mut inst, &[], &HashSet::new(), &mut HashSet::new());
    assert_eq!(inst.manifest, obj(vec![]));
    assert!(inst.lock.is_none());
    assert!(!inst.has_slot("missing"));
}

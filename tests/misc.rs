use qnpm::config::{parse_config_args, Config};
use qnpm::json::Json;
use qnpm::run::script_for;
use qnpm::status::{check_in_json, check_package_status, node_modules_entry, PackageStatus};
use qnpm::uninstall::uninstall;

fn obj(members: Vec<(&str, Json)>) -> Json {
    Json::Object(members.into_iter().map(|(k, v)| (k.to_string(), v)).collect())
}

fn text(s: &str) -> Json {
    Json::Str(s.to_string())
}

fn args(list: &[&str]) -> Vec<String> {
    list.iter().map(|s| s.to_string()).collect()
}

#[test]
fn cachedir_flag_is_read() {
    assert_eq!(parse_config_args(&args(&["--cachedir", "/tmp/c"])), Some("/tmp/c".to_string()));
    assert_eq!(parse_config_args(&args(&["x", "--cachedir", "/a", "--cachedir", "/b"])), Some("/a".to_string()));
    assert_eq!(parse_config_args(&args(&["--cachedir"])), None);
    assert_eq!(parse_config_args(&args(&[])), None);
}

#[test]
fn config_defaults_to_home_or_dot() {
    assert_eq!(Config::with_home(Some("/home/u".to_string())).cache_dir, "/home/u");
    assert_eq!(Config::with_home(None).cache_dir, ".");
}

#[test]
fn status_in_lockfile_and_manifest() {
    let lock = obj(vec![("dependencies", obj(vec![("a", text("1.0.0"))]))]);
    assert_eq!(check_in_json(&lock, "a", "1.0.0", true), PackageStatus::Installed);
    assert_eq!(check_in_json(&lock, "a", "2.0.0", true), PackageStatus::Outdated);
    assert_eq!(check_in_json(&lock, "b", "1.0.0", true), PackageStatus::NotInstalled);
    assert_eq!(check_in_json(&lock, "a", "1.0.0", false), PackageStatus::MalformedDependencies);
    let manifest = obj(vec![("devDependencies", obj(vec![("a", text("1.0.0"))]))]);
    assert_eq!(check_in_json(&manifest, "a", "1.0.0", false), PackageStatus::Installed);
}

#[test]
fn status_falls_back_to_node_modules() {
    let lock = obj(vec![("dependencies", obj(vec![]))]);
    assert_eq!(check_package_status("a", "1", Some(&lock), None, true), PackageStatus::NotInstalled);
    assert_eq!(check_package_status("a", "1", None, None, true), PackageStatus::FoundInNodeModules);
    assert_eq!(check_package_status("a", "1", None, None, false), PackageStatus::NotFoundInNodeModules);
    assert_eq!(node_modules_entry("a", "/p"), "/p/node_modules/a");
}

#[test]
fn scripts_are_looked_up() {
    let m = obj(vec![("scripts", obj(vec![("test", text("console.log(1)"))]))]);
    assert_eq!(script_for(&m, "test"), Some("console.log(1)".to_string()));
    assert_eq!(script_for(&m, "build"), None);
    assert_eq!(script_for(&obj(vec![]), "test"), None);
}

#[test]
fn uninstall_by_declared_version() {
    let m = obj(vec![("dependencies", obj(vec![("a", text("1.0.0")), ("b", text("2.0.0"))]))]);
    let u = uninstall("a", "/p", "/c", m, &args(&["a-1.0.0", "b-2.0.0"]));
    assert_eq!(u.local_dir, "/p/node_modules/a");
    assert_eq!(u.cache_dirs, vec!["/c/a/1.0.0".to_string()]);
    assert_eq!(u.manifest, obj(vec![("dependencies", obj(vec![("b", text("2.0.0"))]))]));
}

#[test]
fn uninstall_scans_cache_without_declaration() {
    let m = obj(vec![("dependencies", obj(vec![]))]);
    let u = uninstall("pad", "/p", "/c", m, &args(&["left-pad-1.3.0", "lodash-4.0.0", "pad-2.0.0"]));
    assert_eq!(u.cache_dirs, vec!["/c/left-pad-1.3.0".to_string(), "/c/pad-2.0.0".to_string()]);
}

#[test]
fn prompt_answer_is_trimmed_or_defaulted() {
    assert_eq!(qnpm::init::answer_or_default("  my-app \n", "x"), "my-app");
    assert_eq!(qnpm::init::answer_or_default(" \n", "ISC"), "ISC");
    assert_eq!(qnpm::init::answer_or_default("", "1.0.0"), "1.0.0");
}

#[test]
fn init_manifest_holds_the_answers() {
    let a = qnpm::init::InitAnswers {
        package_name: "app".to_string(),
        version: "1.0.0".to_string(),
        description: "d".to_string(),
        entry_point: "index.js".to_string(),
        test_command: "echo".to_string(),
        git_repository: "https://g".to_string(),
        keywords: "a, b ,c".to_string(),
        author: "me".to_string(),
        license: "ISC".to_string(),
    };
    let m = qnpm::init::initialize_node(&a);
    assert_eq!(m.get("name"), Some(&text("app")));
    assert_eq!(m.get("main"), Some(&text("index.js")));
    assert_eq!(m.get("scripts").and_then(|s| s.get("test")), Some(&text("echo")));
    assert_eq!(m.get("repository").and_then(|s| s.get("type")), Some(&text("git")));
    assert_eq!(m.get("repository").and_then(|s| s.get("url")), Some(&text("https://g")));
    assert_eq!(m.get("keywords"), Some(&Json::Array(vec![text("a"), text("b"), text("c")])));
    assert_eq!(m.get("license"), Some(&text("ISC")));
}

#[test]
fn empty_keywords_give_one_empty_keyword() {
    let a = qnpm::init::InitAnswers {
        package_name: "app".to_string(),
        version: "1.0.0".to_string(),
        description: String::new(),
        entry_point: "index.js".to_string(),
        test_command: String::new(),
        git_repository: String::new(),
        keywords: String::new(),
        author: String::new(),
        license: "ISC".to_string(),
    };
    let m = qnpm::init::initialize_node(&a);
    assert_eq!(m.get("keywords"), Some(&Json::Array(vec![text("")])));
}

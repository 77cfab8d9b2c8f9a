use rpm::installer::install_path;
use rpm::json::Json;
use rpm::manager::{resolved_from_registry, InstallOutcome, Manager};
use rpm::name_map::NameMap;
use rpm::platform::Platform;
use rpm::task::{Task, TaskAction, TaskEvent};
use rpm::types::{LockFile, PackageJson, RegistryDist, RegistryPackage, RegistryVersion};
use rpm::version::lock_satisfies;
use std::collections::{BTreeMap, BTreeSet};

/// A registry, a project directory and a store, all in memory.
struct World {
    registry: BTreeMap<String, RegistryPackage>,
    disk: BTreeMap<String, String>,
    store: BTreeSet<String>,
    fetches: usize,
    platform: Platform,
}

fn world(os: &str) -> World {
    World {
        registry: BTreeMap::new(),
        disk: BTreeMap::new(),
        store: BTreeSet::new(),
        fetches: 0,
        platform: Platform { os: os.to_string(), cpu: "x64".to_string() },
    }
}

fn names(pairs: &[(&str, &str)]) -> NameMap<String> {
    let mut m = NameMap::new();
    for (k, v) in pairs {
        m.insert(k.to_string(), v.to_string());
    }
    m
}

fn publish(w: &mut World, name: &str, version: &str, deps: &[(&str, &str)]) {
    publish_record(w, name, version, deps, &[], &[], &[]);
}

fn publish_record(
    w: &mut World,
    name: &str,
    version: &str,
    deps: &[(&str, &str)],
    peers: &[(&str, &str)],
    optional: &[(&str, &str)],
    os: &[&str],
) {
    let record = RegistryVersion {
        name: name.to_string(),
        version: version.to_string(),
        dist: RegistryDist {
            tarball: format!("https://registry.npmjs.org/{}/-/{}-{}.tgz", name, name, version),
            integrity: None,
        },
        dependencies: names(deps),
        peer_dependencies: names(peers),
        optional_dependencies: names(optional),
        scripts: NameMap::new(),
        bin: None,
        os: os.iter().map(|s| s.to_string()).collect(),
        cpu: Vec::new(),
    };
    let package = w.registry.entry(name.to_string()).or_insert_with(|| RegistryPackage {
        name: name.to_string(),
        dist_tags: NameMap::new(),
        versions: NameMap::new(),
    });
    package.versions.insert(version.to_string(), record);
    package.dist_tags.insert("latest".to_string(), version.to_string());
}

fn to_json(v: &serde_json::Value) -> Json {
    match v {
        serde_json::Value::Null => Json::Null,
        serde_json::Value::Bool(b) => Json::Bool(*b),
        serde_json::Value::Number(n) => match n.as_u64() {
            Some(u) => Json::Integer(u),
            None => Json::Number(n.to_string()),
        },
        serde_json::Value::String(s) => Json::Text(s.clone()),
        serde_json::Value::Array(a) => Json::List(a.iter().map(to_json).collect()),
        serde_json::Value::Object(o) => {
            Json::Object(o.iter().map(|(k, x)| (k.clone(), to_json(x))).collect())
        },
    }
}

fn to_value(j: &Json) -> serde_json::Value {
    match j {
        Json::Null => serde_json::Value::Null,
        Json::Bool(b) => serde_json::Value::Bool(*b),
        Json::Integer(n) => serde_json::Value::from(*n),
        Json::Number(t) => serde_json::from_str(t).unwrap(),
        Json::Text(t) => serde_json::Value::String(t.clone()),
        Json::List(items) => serde_json::Value::Array(items.iter().map(to_value).collect()),
        Json::Object(members) => {
            let mut map = serde_json::Map::new();
            for (k, v) in members {
                map.insert(k.clone(), to_value(v));
            }
            serde_json::Value::Object(map)
        },
    }
}

fn manifest(text: &str) -> PackageJson {
    PackageJson::from_json(&to_json(&serde_json::from_str(text).unwrap())).unwrap()
}

fn written(lock: &LockFile) -> String {
    serde_json::to_string_pretty(&to_value(&lock.to_json())).unwrap()
}

fn read(text: &str) -> LockFile {
    LockFile::from_json(&to_json(&serde_json::from_str(text).unwrap())).unwrap()
}

/// One task of the installer: performs what the task asks for, tells it
/// what happened, and runs the tasks that follow from it.
fn task(m: &mut Manager, w: &mut World, name: &str, range: &str, root: &str) -> Result<(), String> {
    let mut t = Task::new(name, range, root);
    let mut event = TaskEvent::Begin;
    let mut error = format!("{} could not be installed", name);
    loop {
        match t.advance(m, event) {
            TaskAction::Stop { failed } => {
                return if failed { Err(error) } else { Ok(()) };
            },
            TaskAction::Fetch { name: actual, range: wanted } => {
                w.fetches += 1;
                let resolved = match w.registry.get(&actual) {
                    Some(record) => match m.registry.resolve_version(record, &wanted) {
                        Ok(v) => Some(resolved_from_registry(v)),
                        Err(e) => {
                            error = e.message();
                            None
                        },
                    },
                    None => {
                        error = format!("{} not found", actual);
                        None
                    },
                };
                event = TaskEvent::Resolved(resolved);
            },
            TaskAction::Place { name: placed, version, install_path: place, .. } => {
                assert_eq!(place, install_path(root, &placed));
                let outcome = if w.disk.contains_key(&placed) {
                    InstallOutcome::AlreadyPresent
                } else {
                    w.store.insert(m.installer.get_cache_path(&placed, &version));
                    w.disk.insert(placed, version);
                    InstallOutcome::Installed
                };
                event = TaskEvent::Placed(outcome);
            },
            TaskAction::Continue { children, optional, .. } => {
                for (child, wanted) in children {
                    let _ = task(m, w, &child, &wanted, root);
                }
                for (child, wanted) in optional {
                    let target = match m.plan_optional(&child, &wanted) {
                        Some(t) => t,
                        None => continue,
                    };
                    w.fetches += 1;
                    let admitted = match w.registry.get(&target.actual_name) {
                        Some(record) => {
                            match m.registry.resolve_version(record, &target.version_range) {
                                Ok(v) => m.admit_optional(&child, v, &w.platform),
                                Err(_) => false,
                            }
                        },
                        None => false,
                    };
                    if admitted {
                        let _ = task(m, w, &child, &wanted, root);
                    }
                }
                return Ok(());
            },
        }
    }
}

/// A whole install run. Returns the state at its end and the errors of
/// the direct dependencies.
fn install(w: &mut World, lock: Option<LockFile>, project: &PackageJson) -> (Manager, Vec<String>) {
    let mut m = Manager::new("/home/user", false, true, false);
    if let Some(l) = lock {
        m.load_lockfile(Some(l));
    }
    let mut on_disk = NameMap::new();
    for (name, version) in &w.disk {
        on_disk.insert(name.clone(), version.clone());
    }
    let set = m.compute_packages_to_install(project, &on_disk);
    let ordered = m.order_lazy_first(&set.to_install);
    let mut errors = Vec::new();
    for (name, range) in ordered {
        if let Err(e) = task(&mut m, w, &name, &range, "/proj") {
            errors.push(e);
        }
    }
    m.save_lockfile(&project.name, &project.version);
    (m, errors)
}

#[test]
fn fresh_install_of_a_leaf_package() {
    let mut w = world("linux");
    publish(&mut w, "leftpad", "1.3.0", &[]);
    let project = manifest(r#"{"name":"t","dependencies":{"leftpad":"^1.0.0"}}"#);
    let (m, errors) = install(&mut w, None, &project);
    assert!(errors.is_empty());
    assert_eq!(w.disk.get("leftpad"), Some(&"1.3.0".to_string()));
    assert_eq!(m.lockfile.packages.get("node_modules/leftpad").unwrap().version, "1.3.0");
    assert_eq!(m.lockfile.name, "t");
    assert_eq!(m.lockfile.version, "0.0.0");
    assert_eq!(m.lockfile.lockfile_version, 3);
    assert!(written(&m.lockfile).contains("\"node_modules/leftpad\""));
    assert!(w.store.contains("/home/user/.rpm/store/leftpad@1.3.0"));
    assert_eq!(m.packages_installed, 1);
}

#[test]
fn diamond_installs_the_shared_package_once() {
    let mut w = world("linux");
    publish(&mut w, "a", "1.0.0", &[("c", "^1")]);
    publish(&mut w, "b", "1.2.0", &[("c", "^1")]);
    publish(&mut w, "c", "1.0.0", &[]);
    publish(&mut w, "c", "1.4.0", &[]);
    let project = manifest(r#"{"name":"t","dependencies":{"a":"^1","b":"^1"}}"#);
    let (m, errors) = install(&mut w, None, &project);
    assert!(errors.is_empty());
    assert_eq!(w.disk.keys().cloned().collect::<Vec<_>>(), vec!["a", "b", "c"]);
    assert_eq!(w.disk.get("c"), Some(&"1.4.0".to_string()));
    assert_eq!(m.installed.len(), 3);
    assert_eq!(m.installed.get("c").map(|e| e.value().clone()), Some("1.4.0".to_string()));
    assert_eq!(m.packages_installed, 3);
    assert_eq!(m.lockfile.packages.len(), 3);
    // The registry was asked once for each of the three names.
    assert_eq!(w.fetches, 3);
}

#[test]
fn lazy_reinstall_asks_the_registry_for_nothing() {
    let mut w = world("linux");
    publish(&mut w, "leftpad", "1.3.0", &[]);
    let project = manifest(r#"{"name":"t","dependencies":{"leftpad":"^1.0.0"}}"#);
    let (first, _) = install(&mut w, None, &project);
    let lock_text = written(&first.lockfile);
    let disk = w.disk.clone();
    w.fetches = 0;
    let (second, errors) = install(&mut w, Some(read(&lock_text)), &project);
    assert!(errors.is_empty());
    assert_eq!(w.fetches, 0);
    assert_eq!(w.disk, disk);
    assert_eq!(written(&second.lockfile), lock_text);
    assert_eq!(second.packages_installed, 0);
}

#[test]
fn reinstall_after_node_modules_is_lost_uses_the_lockfile() {
    let mut w = world("linux");
    publish(&mut w, "a", "1.0.0", &[("c", "^1")]);
    publish(&mut w, "c", "1.4.0", &[]);
    let project = manifest(r#"{"name":"t","dependencies":{"a":"^1"}}"#);
    let (first, _) = install(&mut w, None, &project);
    let lock_text = written(&first.lockfile);
    let disk = w.disk.clone();
    w.disk.clear();
    w.fetches = 0;
    let (second, errors) = install(&mut w, Some(read(&lock_text)), &project);
    assert!(errors.is_empty());
    assert_eq!(w.fetches, 0);
    assert_eq!(w.disk, disk);
    assert_eq!(written(&second.lockfile), lock_text);
    assert_eq!(second.packages_installed, 2);
}

#[test]
fn installing_twice_gives_the_same_lockfile_and_tree() {
    let mut w = world("linux");
    publish(&mut w, "a", "1.0.0", &[("c", "^1"), ("d", "~2.1.0")]);
    publish(&mut w, "b", "1.2.0", &[("c", "^1")]);
    publish(&mut w, "c", "1.4.0", &[]);
    publish(&mut w, "d", "2.1.7", &[]);
    let project =
        manifest(r#"{"name":"t","version":"1.0.0","dependencies":{"a":"^1"},"devDependencies":{"b":"^1"}}"#);
    let (first, _) = install(&mut w, None, &project);
    let once = (written(&first.lockfile), w.disk.clone());
    let (second, _) = install(&mut w, Some(read(&once.0)), &project);
    assert_eq!((written(&second.lockfile), w.disk.clone()), once);
}

#[test]
fn range_bump_fetches_and_relocks() {
    let mut w = world("linux");
    publish(&mut w, "leftpad", "1.3.0", &[]);
    let (first, _) =
        install(&mut w, None, &manifest(r#"{"name":"t","dependencies":{"leftpad":"^1.0.0"}}"#));
    let lock_text = written(&first.lockfile);
    publish(&mut w, "leftpad", "2.0.0", &[]);
    // The old copy is gone from node_modules, the lockfile still names it.
    w.disk.clear();
    w.fetches = 0;
    let bumped = manifest(r#"{"name":"t","dependencies":{"leftpad":"^2.0.0"}}"#);
    let (second, errors) = install(&mut w, Some(read(&lock_text)), &bumped);
    assert!(errors.is_empty());
    assert_eq!(w.fetches, 1);
    assert_eq!(w.disk.get("leftpad"), Some(&"2.0.0".to_string()));
    assert_eq!(second.lockfile.packages.get("node_modules/leftpad").unwrap().version, "2.0.0");
    assert_eq!(second.lockfile.packages.len(), 1);
}

#[test]
fn platform_gated_optional_is_left_out() {
    let mut w = world("darwin");
    publish_record(&mut w, "x", "1.0.0", &[], &[], &[("y-linux", "1")], &[]);
    publish_record(&mut w, "y-linux", "1.0.0", &[], &[], &[], &["linux"]);
    let project = manifest(r#"{"name":"t","dependencies":{"x":"1"}}"#);
    let (m, errors) = install(&mut w, None, &project);
    assert!(errors.is_empty());
    assert!(w.disk.contains_key("x"));
    assert!(!w.disk.contains_key("y-linux"));
    assert!(!m.lockfile.packages.contains_key("node_modules/y-linux"));
    assert!(!m.installed.contains_key("y-linux"));
    assert!(w.store.iter().all(|p| !p.contains("y-linux")));
}

#[test]
fn optional_is_installed_where_it_runs() {
    let mut w = world("linux");
    publish_record(&mut w, "x", "1.0.0", &[], &[], &[("y-linux", "1")], &[]);
    publish_record(&mut w, "y-linux", "1.0.0", &[], &[], &[], &["linux"]);
    let project = manifest(r#"{"name":"t","dependencies":{"x":"1"}}"#);
    let (m, _) = install(&mut w, None, &project);
    assert_eq!(w.disk.get("y-linux"), Some(&"1.0.0".to_string()));
    assert!(m.lockfile.packages.contains_key("node_modules/y-linux"));
}

#[test]
fn missing_optional_is_passed_over() {
    let mut w = world("linux");
    publish_record(&mut w, "x", "1.0.0", &[], &[], &[("ghost", "1")], &[]);
    let project = manifest(r#"{"name":"t","dependencies":{"x":"1"}}"#);
    let (m, errors) = install(&mut w, None, &project);
    assert!(errors.is_empty());
    assert_eq!(w.disk.len(), 1);
    assert_eq!(m.lockfile.packages.len(), 1);
}

#[test]
fn cycle_terminates() {
    let mut w = world("linux");
    publish(&mut w, "p", "1.0.0", &[("q", "^1")]);
    publish(&mut w, "q", "1.0.0", &[("p", "^1")]);
    let project = manifest(r#"{"name":"t","dependencies":{"p":"^1"}}"#);
    let (m, errors) = install(&mut w, None, &project);
    assert!(errors.is_empty());
    assert_eq!(w.disk.keys().cloned().collect::<Vec<_>>(), vec!["p", "q"]);
    assert_eq!(m.lockfile.packages.len(), 2);
    assert_eq!(w.fetches, 2);
}

#[test]
fn peer_cycle_terminates() {
    let mut w = world("linux");
    publish_record(&mut w, "p", "1.0.0", &[], &[("q", "^1")], &[], &[]);
    publish_record(&mut w, "q", "1.0.0", &[], &[("p", "^1")], &[], &[]);
    let project = manifest(r#"{"name":"t","dependencies":{"p":"^1"}}"#);
    install(&mut w, None, &project);
    assert_eq!(w.disk.keys().cloned().collect::<Vec<_>>(), vec!["p", "q"]);
}

#[test]
fn alias_installs_the_actual_package_under_the_declared_name() {
    let mut w = world("linux");
    publish(&mut w, "leftpad", "1.3.0", &[]);
    publish(&mut w, "leftpad", "2.0.0", &[]);
    let project = manifest(r#"{"name":"t","dependencies":{"my-pad":"npm:leftpad@^1.0.0"}}"#);
    let (m, errors) = install(&mut w, None, &project);
    assert!(errors.is_empty());
    assert_eq!(w.disk.get("my-pad"), Some(&"1.3.0".to_string()));
    assert!(!w.disk.contains_key("leftpad"));
    let entry = m.lockfile.packages.get("node_modules/my-pad").unwrap();
    assert_eq!(entry.version, "1.3.0");
    assert_eq!(entry.resolved, "https://registry.npmjs.org/leftpad/-/leftpad-1.3.0.tgz");
    assert!(!m.lockfile.packages.contains_key("node_modules/leftpad"));
}

#[test]
fn installed_versions_lie_in_their_ranges() {
    let mut w = world("linux");
    publish(&mut w, "a", "1.0.0", &[]);
    publish(&mut w, "a", "1.9.3", &[]);
    publish(&mut w, "a", "2.0.0", &[]);
    publish(&mut w, "b", "0.4.1", &[]);
    publish(&mut w, "b", "0.5.0", &[]);
    let project = manifest(r#"{"name":"t","dependencies":{"a":"^1.2.0"},"devDependencies":{"b":"~0.4.0"}}"#);
    let (m, _) = install(&mut w, None, &project);
    for (name, range) in [("a", "^1.2.0"), ("b", "~0.4.0")] {
        let version = m.installed.get(name).map(|e| e.value().clone()).unwrap();
        assert!(lock_satisfies(&version, range));
        assert_eq!(w.disk.get(name), Some(&version));
    }
    assert_eq!(w.disk.get("a"), Some(&"1.9.3".to_string()));
    assert_eq!(w.disk.get("b"), Some(&"0.4.1".to_string()));
}

#[test]
fn failure_in_one_subtree_spares_the_siblings() {
    let mut w = world("linux");
    publish(&mut w, "a", "1.0.0", &[("missing", "^1"), ("c", "^1")]);
    publish(&mut w, "b", "1.0.0", &[]);
    publish(&mut w, "c", "1.0.0", &[]);
    let project = manifest(r#"{"name":"t","dependencies":{"a":"^1","b":"^1","nowhere":"^1"}}"#);
    let (m, errors) = install(&mut w, None, &project);
    assert_eq!(errors, vec!["nowhere not found".to_string()]);
    assert_eq!(w.disk.keys().cloned().collect::<Vec<_>>(), vec!["a", "b", "c"]);
    assert_eq!(m.lockfile.packages.len(), 3);
}

#[test]
fn no_version_in_range_is_reported() {
    let mut w = world("linux");
    publish(&mut w, "a", "1.0.0", &[]);
    let project = manifest(r#"{"name":"t","dependencies":{"a":"^5"}}"#);
    let (m, errors) = install(&mut w, None, &project);
    assert_eq!(errors.len(), 1);
    assert!(errors[0].contains("matches"));
    assert!(w.disk.is_empty());
    assert!(m.lockfile.packages.is_empty());
}

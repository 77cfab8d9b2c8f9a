use rpm::manager::{
    confirms, empty_lockfile, lock_key, resolved_from_lock, resolved_from_registry, retry_with_cmd,
    InstallOutcome, Manager, ResolvedPackage, TaskPlan, FETCH_PERMITS, LOCKFILE_VERSION,
    POSTINSTALL_PERMITS,
};
use rpm::name_map::NameMap;
use rpm::platform::Platform;
use rpm::shims::BIN_MODE;
use rpm::task::{Task, TaskAction, TaskEvent, TaskState};
use rpm::types::{BinField, LockFile, LockPackage, PackageJson, RegistryDist, RegistryVersion};

fn names(pairs: &[(&str, &str)]) -> NameMap<String> {
    let mut m = NameMap::new();
    for (k, v) in pairs {
        m.insert(k.to_string(), v.to_string());
    }
    m
}

fn pairs(list: &[(&str, &str)]) -> Vec<(String, String)> {
    list.iter().map(|(a, b)| (a.to_string(), b.to_string())).collect()
}

fn resolved(version: &str) -> ResolvedPackage {
    ResolvedPackage {
        version: version.to_string(),
        tarball: format!("https://example.test/{}.tgz", version),
        dependencies: NameMap::new(),
        peer_dependencies: NameMap::new(),
        optional_dependencies: NameMap::new(),
        postinstall: None,
        bin: None,
    }
}

fn entry(version: &str) -> LockPackage {
    LockPackage {
        version: version.to_string(),
        resolved: format!("https://example.test/{}.tgz", version),
        integrity: None,
        dependencies: NameMap::new(),
        peer_dependencies: NameMap::new(),
        optional_dependencies: NameMap::new(),
        postinstall: None,
        bin: None,
    }
}

fn manifest(deps: &[(&str, &str)], dev: &[(&str, &str)]) -> PackageJson {
    PackageJson {
        name: "t".to_string(),
        version: "0.0.0".to_string(),
        dependencies: names(deps),
        dev_dependencies: names(dev),
        peer_dependencies: NameMap::new(),
        optional_dependencies: NameMap::new(),
        scripts: NameMap::new(),
        bin: None,
        workspaces: Vec::new(),
    }
}

fn record(version: &str, os: &[&str], cpu: &[&str]) -> RegistryVersion {
    RegistryVersion {
        name: "p".to_string(),
        version: version.to_string(),
        dist: RegistryDist { tarball: "https://example.test/p.tgz".to_string(), integrity: None },
        dependencies: NameMap::new(),
        peer_dependencies: NameMap::new(),
        optional_dependencies: NameMap::new(),
        scripts: NameMap::new(),
        bin: None,
        os: os.iter().map(|s| s.to_string()).collect(),
        cpu: cpu.iter().map(|s| s.to_string()).collect(),
    }
}

fn fresh() -> Manager {
    Manager::new("/home/user", false, true, false)
}

#[test]
fn limits_of_a_run() {
    assert_eq!(FETCH_PERMITS, 50);
    assert_eq!(POSTINSTALL_PERMITS, 10);
    assert_eq!(LOCKFILE_VERSION, 3);
    assert_eq!(BIN_MODE, 0o755);
}

#[test]
fn a_run_starts_empty() {
    let m = fresh();
    assert!(m.installed.is_empty());
    assert!(m.postinstalls.is_empty());
    assert_eq!(m.lockfile.lockfile_version, 3);
    assert_eq!(m.lockfile.packages.len(), 0);
    assert_eq!(m.lockfile.name, "");
    assert_eq!((m.packages_resolved, m.packages_installed, m.packages_cached), (0, 0, 0));
    assert_eq!(m.installer.cache_dir, "/home/user/.rpm/store");
    assert_eq!(m.registry.base_url, "https://registry.npmjs.org");
    let e = empty_lockfile();
    assert_eq!(e.lockfile_version, 3);
    assert!(e.packages.is_empty());
}

#[test]
fn lock_keys_lie_under_node_modules() {
    assert_eq!(lock_key("left-pad"), "node_modules/left-pad");
    assert_eq!(lock_key("@babel/core"), "node_modules/@babel/core");
}

#[test]
fn unknown_package_is_fetched() {
    let m = fresh();
    match m.plan("left-pad", "^1.0.0") {
        TaskPlan::Fetch { name, range } => {
            assert_eq!(name, "left-pad");
            assert_eq!(range, "^1.0.0");
        },
        _ => panic!("expected Fetch"),
    }
}

#[test]
fn alias_is_fetched_under_its_actual_name() {
    let m = fresh();
    match m.plan("my-pad", "npm:left-pad@^1.3.0") {
        TaskPlan::Fetch { name, range } => {
            assert_eq!(name, "left-pad");
            assert_eq!(range, "^1.3.0");
        },
        _ => panic!("expected Fetch"),
    }
}

#[test]
fn alias_is_installed_under_its_declared_name() {
    let mut m = fresh();
    assert!(m.claim("my-pad", "1.3.0"));
    assert!(m.settle("my-pad", &resolved("1.3.0"), "/p/node_modules/my-pad", InstallOutcome::Installed));
    assert!(m.installed.contains_key("my-pad"));
    assert!(!m.installed.contains_key("left-pad"));
    assert!(m.lockfile.packages.contains_key("node_modules/my-pad"));
    assert!(!m.lockfile.packages.contains_key("node_modules/left-pad"));
}

#[test]
fn locked_version_that_serves_is_taken_from_the_lockfile() {
    let mut m = fresh();
    let mut e = entry("1.3.0");
    e.dependencies = names(&[("dep", "^2.0.0")]);
    e.postinstall = Some("node build.js".to_string());
    e.bin = Some(BinField::Single("cli.js".to_string()));
    m.lockfile.packages.insert("node_modules/left-pad".to_string(), e);
    match m.plan("left-pad", "^1.0.0") {
        TaskPlan::FromLockfile(p) => {
            assert_eq!(p.version, "1.3.0");
            assert_eq!(p.tarball, "https://example.test/1.3.0.tgz");
            assert_eq!(p.dependencies.get("dep"), Some(&"^2.0.0".to_string()));
            assert_eq!(p.postinstall, Some("node build.js".to_string()));
            assert!(matches!(p.bin, Some(BinField::Single(ref s)) if s == "cli.js"));
        },
        _ => panic!("expected FromLockfile"),
    }
    // The range equal to the locked version, letter for letter, is served too.
    m.lockfile.packages.insert("node_modules/tagged".to_string(), entry("latest"));
    assert!(matches!(m.plan("tagged", "latest"), TaskPlan::FromLockfile(_)));
}

#[test]
fn locked_version_that_does_not_serve_is_fetched() {
    let mut m = fresh();
    m.lockfile.packages.insert("node_modules/left-pad".to_string(), entry("1.3.0"));
    assert!(matches!(m.plan("left-pad", "^2.0.0"), TaskPlan::Fetch { .. }));
}

#[test]
fn claimed_name_is_left_alone() {
    let mut m = fresh();
    assert!(m.claim("c", "1.0.0"));
    assert!(matches!(m.plan("c", "^1.0.0"), TaskPlan::AlreadyInstalled));
    assert!(matches!(m.plan("c", "^9.0.0"), TaskPlan::AlreadyInstalled));
}

#[test]
fn a_name_is_claimed_once() {
    let mut m = fresh();
    assert!(m.claim("c", "1.0.0"));
    assert!(!m.claim("c", "1.2.0"));
    assert_eq!(m.installed.get("c").map(|e| e.value().clone()), Some("1.0.0".to_string()));
    assert_eq!(m.installed.len(), 1);
    assert_eq!(m.packages_resolved, 2);
}

#[test]
fn installed_package_is_counted_and_locked() {
    let mut m = fresh();
    let mut p = resolved("1.3.0");
    p.dependencies = names(&[("dep", "^1.0.0")]);
    p.postinstall = Some("node install.js".to_string());
    assert!(m.claim("left-pad", "1.3.0"));
    assert!(m.settle("left-pad", &p, "/proj/node_modules/left-pad", InstallOutcome::Installed));
    assert_eq!(m.packages_installed, 1);
    assert_eq!(m.packages_cached, 0);
    let e = m.lockfile.packages.get("node_modules/left-pad").unwrap();
    assert_eq!(e.version, "1.3.0");
    assert_eq!(e.resolved, "https://example.test/1.3.0.tgz");
    assert_eq!(e.integrity, None);
    assert_eq!(e.dependencies.get("dep"), Some(&"^1.0.0".to_string()));
    assert_eq!(e.postinstall, Some("node install.js".to_string()));
    let script = m.postinstalls.get("left-pad").map(|e| e.value().clone());
    assert_eq!(
        script,
        Some(("/proj/node_modules/left-pad".to_string(), "node install.js".to_string()))
    );
}

#[test]
fn present_package_is_counted_as_cached_and_runs_no_script() {
    let mut m = fresh();
    let mut p = resolved("1.3.0");
    p.postinstall = Some("node install.js".to_string());
    assert!(m.settle("left-pad", &p, "/proj/node_modules/left-pad", InstallOutcome::AlreadyPresent));
    assert_eq!(m.packages_installed, 0);
    assert_eq!(m.packages_cached, 1);
    assert!(m.lockfile.packages.contains_key("node_modules/left-pad"));
    assert!(m.postinstalls.is_empty());
}

#[test]
fn failed_package_leaves_no_trace() {
    let mut m = fresh();
    let p = resolved("1.3.0");
    assert!(!m.settle("left-pad", &p, "/proj/node_modules/left-pad", InstallOutcome::Failed));
    assert_eq!((m.packages_installed, m.packages_cached), (0, 0));
    assert!(m.lockfile.packages.is_empty());
    assert!(m.postinstalls.is_empty());
}

#[test]
fn relocking_replaces_the_entry() {
    let mut m = fresh();
    m.settle("p", &resolved("1.0.0"), "/x", InstallOutcome::Installed);
    m.settle("p", &resolved("2.0.0"), "/x", InstallOutcome::Installed);
    assert_eq!(m.lockfile.packages.len(), 1);
    assert_eq!(m.lockfile.packages.get("node_modules/p").unwrap().version, "2.0.0");
}

#[test]
fn registry_record_becomes_a_resolved_package() {
    let mut v = record("2.1.0", &[], &[]);
    v.dependencies = names(&[("a", "^1")]);
    v.peer_dependencies = names(&[("b", "^2")]);
    v.optional_dependencies = names(&[("c", "^3")]);
    v.scripts = names(&[("install", "make"), ("test", "jest")]);
    v.bin = Some(BinField::Single("bin.js".to_string()));
    let p = resolved_from_registry(&v);
    assert_eq!(p.version, "2.1.0");
    assert_eq!(p.tarball, "https://example.test/p.tgz");
    assert_eq!(p.dependencies.pairs(), pairs(&[("a", "^1")]));
    assert_eq!(p.peer_dependencies.pairs(), pairs(&[("b", "^2")]));
    assert_eq!(p.optional_dependencies.pairs(), pairs(&[("c", "^3")]));
    assert_eq!(p.postinstall, Some("make".to_string()));
    v.scripts = names(&[("install", "make"), ("postinstall", "node post.js")]);
    assert_eq!(resolved_from_registry(&v).postinstall, Some("node post.js".to_string()));
    v.scripts = names(&[("test", "jest")]);
    assert_eq!(resolved_from_registry(&v).postinstall, None);
}

#[test]
fn lock_entry_becomes_a_resolved_package() {
    let mut e = entry("1.0.0");
    e.integrity = Some("sha512-x".to_string());
    e.optional_dependencies = names(&[("o", "1")]);
    let p = resolved_from_lock(&e);
    assert_eq!(p.version, "1.0.0");
    assert_eq!(p.tarball, e.resolved);
    assert_eq!(p.optional_dependencies.pairs(), pairs(&[("o", "1")]));
}

#[test]
fn children_are_dependencies_and_unclaimed_peers() {
    let mut m = fresh();
    m.claim("peer-b", "1.0.0");
    let mut p = resolved("1.0.0");
    p.dependencies = names(&[("dep-b", "^2"), ("dep-a", "^1")]);
    p.peer_dependencies = names(&[("peer-a", "^1"), ("peer-b", "^1"), ("peer-c", "^3")]);
    p.optional_dependencies = names(&[("opt", "^1")]);
    assert_eq!(
        m.children(&p),
        pairs(&[("dep-a", "^1"), ("dep-b", "^2"), ("peer-a", "^1"), ("peer-c", "^3")])
    );
    // A claimed dependency is still listed: its task stops by itself.
    m.claim("dep-a", "1.0.0");
    assert_eq!(m.children(&p).len(), 4);
}

#[test]
fn optional_dependency_is_checked_unless_claimed() {
    let mut m = fresh();
    let t = m.plan_optional("y-linux", "1").unwrap();
    assert_eq!((t.actual_name.as_str(), t.version_range.as_str()), ("y-linux", "1"));
    let a = m.plan_optional("alias", "npm:@scope/real@^2").unwrap();
    assert_eq!((a.actual_name.as_str(), a.version_range.as_str()), ("@scope/real", "^2"));
    m.claim("y-linux", "1.0.0");
    assert!(m.plan_optional("y-linux", "1").is_none());
}

#[test]
fn excluded_platform_is_not_admitted() {
    let mut m = fresh();
    let darwin = Platform { os: "darwin".to_string(), cpu: "arm64".to_string() };
    let linux = Platform { os: "linux".to_string(), cpu: "x64".to_string() };
    let y = record("1.0.0", &["linux"], &[]);
    assert!(!m.admit_optional("y-linux", &y, &darwin));
    assert!(m.admit_optional("y-linux", &y, &linux));
    let arm_only = record("1.0.0", &[], &["arm64"]);
    assert!(m.admit_optional("z", &arm_only, &darwin));
    assert!(!m.admit_optional("z", &arm_only, &linux));
    assert!(m.lockfile.packages.is_empty());
    assert!(m.installed.is_empty());
    m.claim("y-linux", "1.0.0");
    assert!(!m.admit_optional("y-linux", &y, &linux));
}

#[test]
fn up_to_date_packages_are_filtered_out() {
    let mut m = fresh();
    m.lockfile.packages.insert("node_modules/a".to_string(), entry("1.0.0"));
    m.lockfile.packages.insert("node_modules/b".to_string(), entry("2.0.0"));
    m.lockfile.packages.insert("node_modules/d".to_string(), entry("4.0.0"));
    let disk = names(&[("a", "1.0.0"), ("b", "2.1.0"), ("c", "3.0.0")]);
    let set = m.compute_packages_to_install(
        &manifest(&[("a", "^1"), ("b", "^2"), ("c", "^3")], &[("d", "^4")]),
        &disk,
    );
    assert_eq!(set.to_install, pairs(&[("b", "^2"), ("c", "^3"), ("d", "^4")]));
    assert_eq!(set.up_to_date, 1);
    assert_eq!(m.installed.get("a").map(|e| e.value().clone()), Some("1.0.0".to_string()));
    assert_eq!(m.installed.len(), 1);
}

#[test]
fn nothing_to_install_when_disk_matches_lock() {
    let mut m = fresh();
    m.lockfile.packages.insert("node_modules/a".to_string(), entry("1.0.0"));
    m.lockfile.packages.insert("node_modules/d".to_string(), entry("4.0.0"));
    let lock_before = m.lockfile.packages.len();
    let set = m.compute_packages_to_install(
        &manifest(&[("a", "^1")], &[("d", "^4")]),
        &names(&[("a", "1.0.0"), ("d", "4.0.0")]),
    );
    assert!(set.to_install.is_empty());
    assert_eq!(set.up_to_date, 2);
    assert_eq!(m.lockfile.packages.len(), lock_before);
}

#[test]
fn everything_is_installed_without_a_lockfile() {
    let mut m = fresh();
    let set = m.compute_packages_to_install(
        &manifest(&[("b", "^2"), ("a", "^1")], &[("c", "^3")]),
        &names(&[("a", "1.0.0")]),
    );
    assert_eq!(set.to_install, pairs(&[("a", "^1"), ("b", "^2"), ("c", "^3")]));
    assert_eq!(set.up_to_date, 0);
    assert!(m.installed.is_empty());
}

#[test]
fn lock_resolvable_dependencies_come_first() {
    let mut m = fresh();
    m.lockfile.packages.insert("node_modules/b".to_string(), entry("2.3.0"));
    m.lockfile.packages.insert("node_modules/d".to_string(), entry("4.0.0"));
    m.lockfile.packages.insert("node_modules/e".to_string(), entry("1.0.0"));
    let deps = pairs(&[("a", "^1"), ("b", "^2"), ("c", "^3"), ("d", "^4"), ("e", "^5")]);
    assert_eq!(
        m.order_lazy_first(&deps),
        pairs(&[("b", "^2"), ("d", "^4"), ("a", "^1"), ("c", "^3"), ("e", "^5")])
    );
    assert_eq!(m.order_lazy_first(&Vec::new()), Vec::new());
}

#[test]
fn lockfile_is_taken_over_and_named() {
    let mut m = fresh();
    let mut found = LockFile {
        name: "old".to_string(),
        version: "0.1.0".to_string(),
        lockfile_version: 3,
        packages: NameMap::new(),
    };
    found.packages.insert("node_modules/a".to_string(), entry("1.0.0"));
    m.load_lockfile(Some(found));
    assert_eq!(m.lockfile.packages.len(), 1);
    m.save_lockfile("proj", "1.2.3");
    assert_eq!(m.lockfile.name, "proj");
    assert_eq!(m.lockfile.version, "1.2.3");
    assert_eq!(m.lockfile.packages.len(), 1);
    m.load_lockfile(None);
    assert_eq!(m.lockfile.packages.len(), 0);
    assert_eq!(m.lockfile.lockfile_version, 3);
    assert_eq!(m.lockfile.name, "");
}

#[test]
fn answers_that_are_a_yes() {
    assert!(confirms("y"));
    assert!(confirms("Y"));
    assert!(confirms("y\n"));
    assert!(confirms("  y \r\n"));
    assert!(!confirms(""));
    assert!(!confirms("\n"));
    assert!(!confirms("n"));
    assert!(!confirms("yes"));
    assert!(!confirms("yy"));
    assert!(!confirms("y y"));
    assert!(!confirms("no y"));
    for answer in ["y", " Y\t", "yes", "", "n", "\u{a0}y\u{2003}", "ÿ"] {
        assert_eq!(confirms(answer), answer.trim().eq_ignore_ascii_case("y"));
    }
}

#[test]
fn scripts_wait_for_consent() {
    let mut asking = Manager::new("/h", false, false, false);
    assert!(!asking.needs_confirmation());
    let mut p = resolved("1.0.0");
    p.postinstall = Some("node a.js".to_string());
    asking.settle("a", &p, "/proj/node_modules/a", InstallOutcome::Installed);
    let mut q = resolved("2.0.0");
    q.postinstall = Some("node b.js".to_string());
    asking.settle("b", &q, "/proj/node_modules/b", InstallOutcome::Installed);
    assert!(asking.needs_confirmation());
    assert!(asking.scripts_to_run(false).is_empty());
    let mut run = asking.scripts_to_run(true);
    run.sort();
    assert_eq!(
        run,
        vec![
            ("a".to_string(), "/proj/node_modules/a".to_string(), "node a.js".to_string()),
            ("b".to_string(), "/proj/node_modules/b".to_string(), "node b.js".to_string()),
        ]
    );
}

#[test]
fn scripts_run_unasked_or_not_at_all() {
    let mut p = resolved("1.0.0");
    p.postinstall = Some("node a.js".to_string());
    let mut auto = Manager::new("/h", false, true, false);
    auto.settle("a", &p, "/x", InstallOutcome::Installed);
    assert!(!auto.needs_confirmation());
    assert_eq!(auto.scripts_to_run(false).len(), 1);
    let mut ignoring = Manager::new("/h", false, true, true);
    ignoring.settle("a", &p, "/x", InstallOutcome::Installed);
    assert!(!ignoring.needs_confirmation());
    assert!(ignoring.scripts_to_run(true).is_empty());
}

#[test]
fn unstartable_script_is_retried_on_windows_only() {
    assert!(retry_with_cmd(true, true));
    assert!(!retry_with_cmd(true, false));
    assert!(!retry_with_cmd(false, true));
    assert!(!retry_with_cmd(false, false));
}

#[test]
fn progress_is_counted_and_reset() {
    let mut m = fresh();
    m.claim("a", "1.0.0");
    m.settle("a", &resolved("1.0.0"), "/x", InstallOutcome::Installed);
    m.settle("b", &resolved("1.0.0"), "/x", InstallOutcome::AlreadyPresent);
    assert_eq!((m.packages_resolved, m.packages_installed, m.packages_cached), (1, 1, 1));
    let msg = rpm::output::strip_colors(&m.update_progress());
    assert_eq!(msg, "Resolved 1 │  Installed 1  │  Cached 1");
    m.set_current_package("react", "installing");
    assert_eq!(
        rpm::output::strip_colors(&m.update_progress()),
        "Resolved 1 │  Installed 1  │  Cached 1  │  installing react"
    );
    m.clear_current_package("react");
    assert_eq!(rpm::output::strip_colors(&m.update_progress()), msg);
    m.reset_progress();
    assert_eq!((m.packages_resolved, m.packages_installed, m.packages_cached), (0, 0, 0));
}

#[test]
fn shims_for_a_single_bin() {
    let links = Manager::link_binaries("/proj", "tool", &BinField::Single("bin/cli.js".to_string()));
    assert_eq!(links.len(), 1);
    let l = &links[0];
    assert_eq!(l.name, "tool");
    assert_eq!(l.link_path, "/proj/node_modules/.bin/tool");
    assert_eq!(l.target, "../tool/bin/cli.js");
    assert_eq!(l.target_path, "/proj/node_modules/tool/bin/cli.js");
    assert_eq!(l.cmd_shim, "@ECHO off\r\n\"%~dp0\\..\\tool\\bin\\cli.js\" %*\r\n");
    assert_eq!(l.ps1_shim, "& \"$PSScriptRoot\\..\\tool\\bin\\cli.js\" $args\r\n");
}

#[test]
fn shims_for_a_bin_table() {
    let table = names(&[("tsserver", "bin/tsserver"), ("tsc", "bin/tsc")]);
    let links = Manager::link_binaries("/proj", "typescript", &BinField::Table(table));
    assert_eq!(links.len(), 2);
    assert_eq!(links[0].name, "tsc");
    assert_eq!(links[0].target, "../typescript/bin/tsc");
    assert_eq!(links[1].name, "tsserver");
    assert_eq!(links[1].link_path, "/proj/node_modules/.bin/tsserver");
    assert!(Manager::link_binaries("/proj", "x", &BinField::Table(NameMap::new())).is_empty());
}

#[test]
fn task_fetches_claims_places_and_continues() {
    let mut m = fresh();
    let mut t = Task::new("left-pad", "^1.0.0", "/proj");
    match t.advance(&mut m, TaskEvent::Begin) {
        TaskAction::Fetch { name, range } => {
            assert_eq!((name.as_str(), range.as_str()), ("left-pad", "^1.0.0"));
        },
        _ => panic!("expected Fetch"),
    }
    assert!(matches!(t.state, TaskState::Resolving));
    let mut p = resolved("1.3.0");
    p.dependencies = names(&[("dep", "^1")]);
    p.optional_dependencies = names(&[("opt", "^2")]);
    p.bin = Some(BinField::Single("cli.js".to_string()));
    match t.advance(&mut m, TaskEvent::Resolved(Some(p))) {
        TaskAction::Place { name, version, tarball, install_path, manifest_path } => {
            assert_eq!(name, "left-pad");
            assert_eq!(version, "1.3.0");
            assert_eq!(tarball, "https://example.test/1.3.0.tgz");
            assert_eq!(install_path, "/proj/node_modules/left-pad");
            assert_eq!(manifest_path, "/proj/node_modules/left-pad/package.json");
        },
        _ => panic!("expected Place"),
    }
    assert!(m.installed.contains_key("left-pad"));
    assert!(m.lockfile.packages.is_empty());
    match t.advance(&mut m, TaskEvent::Placed(InstallOutcome::Installed)) {
        TaskAction::Continue { bin, children, optional } => {
            assert!(matches!(bin, Some(BinField::Single(ref s)) if s == "cli.js"));
            assert_eq!(children, pairs(&[("dep", "^1")]));
            assert_eq!(optional, pairs(&[("opt", "^2")]));
        },
        _ => panic!("expected Continue"),
    }
    assert!(matches!(t.state, TaskState::Finished));
    assert!(m.lockfile.packages.contains_key("node_modules/left-pad"));
    assert_eq!(m.packages_installed, 1);
}

#[test]
fn task_served_by_the_lockfile_asks_nothing() {
    let mut m = fresh();
    m.lockfile.packages.insert("node_modules/left-pad".to_string(), entry("1.3.0"));
    let mut t = Task::new("left-pad", "^1.0.0", "/proj");
    assert!(matches!(t.advance(&mut m, TaskEvent::Begin), TaskAction::Place { .. }));
    match t.advance(&mut m, TaskEvent::Placed(InstallOutcome::AlreadyPresent)) {
        TaskAction::Continue { children, optional, .. } => {
            assert!(children.is_empty());
            assert!(optional.is_empty());
        },
        _ => panic!("expected Continue"),
    }
    assert_eq!(m.packages_cached, 1);
}

#[test]
fn task_for_a_claimed_name_stops() {
    let mut m = fresh();
    m.claim("c", "1.0.0");
    let mut t = Task::new("c", "^1", "/proj");
    assert!(matches!(t.advance(&mut m, TaskEvent::Begin), TaskAction::Stop { failed: false }));
    // A task that loses the claim after resolving stops too.
    let mut late = Task::new("d", "^1", "/proj");
    assert!(matches!(late.advance(&mut m, TaskEvent::Begin), TaskAction::Fetch { .. }));
    m.claim("d", "1.0.0");
    assert!(matches!(
        late.advance(&mut m, TaskEvent::Resolved(Some(resolved("1.1.0")))),
        TaskAction::Stop { failed: false }
    ));
    assert_eq!(m.installed.get("d").map(|e| e.value().clone()), Some("1.0.0".to_string()));
}

#[test]
fn task_fails_without_a_record_or_a_place() {
    let mut m = fresh();
    let mut t = Task::new("ghost", "^1", "/proj");
    t.advance(&mut m, TaskEvent::Begin);
    assert!(matches!(t.advance(&mut m, TaskEvent::Resolved(None)), TaskAction::Stop { failed: true }));
    assert!(!m.installed.contains_key("ghost"));
    let mut u = Task::new("p", "^1", "/proj");
    u.advance(&mut m, TaskEvent::Begin);
    u.advance(&mut m, TaskEvent::Resolved(Some(resolved("1.0.0"))));
    assert!(matches!(
        u.advance(&mut m, TaskEvent::Placed(InstallOutcome::Failed)),
        TaskAction::Stop { failed: true }
    ));
    assert!(m.lockfile.packages.is_empty());
    assert!(m.installed.contains_key("p"));
}

#[test]
fn task_told_something_out_of_turn_stops_as_failed() {
    let mut m = fresh();
    let mut t = Task::new("p", "^1", "/proj");
    assert!(matches!(
        t.advance(&mut m, TaskEvent::Placed(InstallOutcome::Installed)),
        TaskAction::Stop { failed: true }
    ));
    assert!(matches!(t.advance(&mut m, TaskEvent::Begin), TaskAction::Stop { failed: true }));
    assert!(m.installed.is_empty());
    assert!(m.lockfile.packages.is_empty());
}

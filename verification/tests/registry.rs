use rpm::name_map::NameMap;
use rpm::output::RpmError;
use rpm::registry::{
    caret_range, decode_error, parse_package_alias, parse_package_spec, status_error,
    suggest_names, transport_error, version_not_found, Registry,
};
use rpm::types::{RegistryDist, RegistryPackage, RegistryVersion};
use rpm::version::{is_range, is_version, lock_satisfies, newest_first, satisfies};
use std::cmp::Ordering;

fn version(name: &str, version: &str) -> RegistryVersion {
    RegistryVersion {
        name: name.to_string(),
        version: version.to_string(),
        dist: RegistryDist {
            tarball: format!("https://registry.npmjs.org/{}/-/{}-{}.tgz", name, name, version),
            integrity: None,
        },
        dependencies: NameMap::new(),
        peer_dependencies: NameMap::new(),
        optional_dependencies: NameMap::new(),
        scripts: NameMap::new(),
        bin: None,
        os: Vec::new(),
        cpu: Vec::new(),
    }
}

fn package(name: &str, versions: &[&str], tags: &[(&str, &str)]) -> RegistryPackage {
    let mut map = NameMap::new();
    for v in versions {
        map.insert(v.to_string(), version(name, v));
    }
    let mut dist_tags = NameMap::new();
    for (tag, v) in tags {
        dist_tags.insert(tag.to_string(), v.to_string());
    }
    RegistryPackage { name: name.to_string(), dist_tags, versions: map }
}

fn resolved(pkg: &RegistryPackage, range: &str) -> Option<String> {
    match Registry::new().resolve_version(pkg, range) {
        Ok(v) => Some(v.version.clone()),
        Err(_) => None,
    }
}

#[test]
fn semver_texts_are_told_apart() {
    assert!(is_version("1.2.3"));
    assert!(is_version("1.0.0-alpha.1+build"));
    assert!(!is_version("1.2"));
    assert!(!is_version("latest"));
    assert!(is_range("^1.2.3"));
    assert!(is_range("*"));
    assert!(is_range(">=1.0.0, <2.0.0"));
    assert!(!is_range("npm:foo@1"));
}

#[test]
fn ranges_admit_versions() {
    assert!(satisfies("^1.0.0", "1.3.0"));
    assert!(!satisfies("^1.0.0", "2.0.0"));
    assert!(satisfies("~1.2.0", "1.2.9"));
    assert!(!satisfies("~1.2.0", "1.3.0"));
    assert!(!satisfies("not a range", "1.0.0"));
    assert!(!satisfies("^1.0.0", "not a version"));
    assert!(!satisfies("*", "1.0.0-beta.1"));
}

#[test]
fn locked_version_serves_range_or_literal() {
    assert!(lock_satisfies("1.3.0", "^1.0.0"));
    assert!(!lock_satisfies("1.3.0", "^2.0.0"));
    assert!(lock_satisfies("latest", "latest"));
    assert!(lock_satisfies("1.3.0", "1.3.0"));
    assert!(!lock_satisfies("1.3.0", "latest"));
}

#[test]
fn newest_first_orders_by_precedence() {
    assert_eq!(newest_first(&"2.0.0".to_string(), &"1.0.0".to_string()), Ordering::Less);
    assert_eq!(newest_first(&"1.5.0".to_string(), &"1.19.0".to_string()), Ordering::Greater);
    assert_eq!(newest_first(&"1.0.0".to_string(), &"1.0.0".to_string()), Ordering::Equal);
    assert_eq!(newest_first(&"1.0.0-alpha".to_string(), &"1.0.0".to_string()), Ordering::Greater);
}

#[test]
fn greatest_version_in_range_is_selected() {
    let pkg = package("leftpad", &["1.0.0", "1.3.0", "1.19.0", "1.5.0", "2.0.0"], &[]);
    assert_eq!(resolved(&pkg, "^1.0.0"), Some("1.19.0".to_string()));
    assert_eq!(resolved(&pkg, "~1.3.0"), Some("1.3.0".to_string()));
    assert_eq!(resolved(&pkg, "*"), Some("2.0.0".to_string()));
    assert_eq!(resolved(&pkg, ">=1.4.0, <1.20.0"), Some("1.19.0".to_string()));
}

#[test]
fn prerelease_compares_per_semver() {
    let pkg = package("p", &["1.0.0-alpha", "1.0.0-alpha.1", "1.0.0-beta.2", "1.0.0-beta.11"], &[]);
    assert_eq!(resolved(&pkg, ">=1.0.0-alpha, <1.0.0"), Some("1.0.0-beta.11".to_string()));
}

#[test]
fn dist_tag_is_followed() {
    let pkg = package("p", &["1.0.0", "2.0.0", "3.0.0-rc.1"], &[("latest", "2.0.0"), ("next", "3.0.0-rc.1")]);
    assert_eq!(resolved(&pkg, "latest"), Some("2.0.0".to_string()));
    assert_eq!(resolved(&pkg, "next"), Some("3.0.0-rc.1".to_string()));
}

#[test]
fn dist_tag_without_version_fails() {
    let pkg = package("p", &["1.0.0"], &[("latest", "9.9.9")]);
    match Registry::new().resolve_version(&pkg, "latest") {
        Err(RpmError::VersionNotFound { name, requested, available }) => {
            assert_eq!(name, "p");
            assert_eq!(requested, "latest");
            assert_eq!(available, vec!["1.0.0".to_string()]);
        },
        _ => panic!("expected VersionNotFound"),
    }
}

#[test]
fn unparseable_range_accepts_all_releases() {
    let pkg = package("p", &["1.0.0", "2.5.0", "3.0.0-beta"], &[]);
    assert_eq!(resolved(&pkg, "whatever this is"), Some("2.5.0".to_string()));
}

#[test]
fn unparseable_versions_are_passed_over() {
    let mut pkg = package("p", &["1.0.0"], &[]);
    pkg.versions.insert("weird".to_string(), version("p", "weird"));
    pkg.versions.insert("9".to_string(), version("p", "9"));
    assert_eq!(resolved(&pkg, "*"), Some("1.0.0".to_string()));
}

#[test]
fn no_version_in_range_lists_what_there_is() {
    let pkg = package("leftpad", &["1.0.0", "1.10.0", "1.9.0", "0.5.0"], &[]);
    match Registry::new().resolve_version(&pkg, "^2.0.0") {
        Err(RpmError::VersionNotFound { name, requested, available }) => {
            assert_eq!(name, "leftpad");
            assert_eq!(requested, "^2.0.0");
            assert_eq!(
                available,
                vec![
                    "1.10.0".to_string(),
                    "1.9.0".to_string(),
                    "1.0.0".to_string(),
                    "0.5.0".to_string()
                ]
            );
        },
        _ => panic!("expected VersionNotFound"),
    }
}

#[test]
fn version_not_found_leaves_out_what_does_not_parse() {
    let mut pkg = package("p", &["1.0.0", "2.0.0"], &[]);
    pkg.versions.insert("junk".to_string(), version("p", "junk"));
    match version_not_found(&pkg, "^3") {
        RpmError::VersionNotFound { available, .. } => {
            assert_eq!(available, vec!["2.0.0".to_string(), "1.0.0".to_string()]);
        },
        _ => panic!("expected VersionNotFound"),
    }
}

#[test]
fn empty_package_has_no_version() {
    let pkg = package("p", &[], &[]);
    assert_eq!(resolved(&pkg, "*"), None);
}

#[test]
fn alias_names_another_package() {
    let a = parse_package_alias("npm:left-pad@^1.3.0").unwrap();
    assert_eq!(a.actual_name, "left-pad");
    assert_eq!(a.version_range, "^1.3.0");
}

#[test]
fn scoped_alias_splits_on_second_at() {
    let a = parse_package_alias("npm:@babel/traverse@^7.25.3").unwrap();
    assert_eq!(a.actual_name, "@babel/traverse");
    assert_eq!(a.version_range, "^7.25.3");
}

#[test]
fn ranges_that_are_no_alias() {
    assert!(parse_package_alias("^1.0.0").is_none());
    assert!(parse_package_alias("npm:left-pad").is_none());
    assert!(parse_package_alias("npm:@scope/name").is_none());
    assert!(parse_package_alias("npm").is_none());
    assert!(parse_package_alias("").is_none());
    let empty_range = parse_package_alias("npm:x@").unwrap();
    assert_eq!(empty_range.actual_name, "x");
    assert_eq!(empty_range.version_range, "");
}

#[test]
fn package_spec_splits_on_last_at() {
    assert_eq!(parse_package_spec("react"), ("react".to_string(), "latest".to_string()));
    assert_eq!(parse_package_spec("react@18.0.0"), ("react".to_string(), "18.0.0".to_string()));
    assert_eq!(
        parse_package_spec("@scope/pkg@1.2.3"),
        ("@scope/pkg".to_string(), "1.2.3".to_string())
    );
    assert_eq!(parse_package_spec("@scope/pkg"), ("@scope/pkg".to_string(), "latest".to_string()));
    assert_eq!(parse_package_spec("a@b@c"), ("a@b".to_string(), "c".to_string()));
    assert_eq!(caret_range("1.2.3"), "^1.2.3");
}

#[test]
fn suggestions_for_a_mistyped_name() {
    assert_eq!(
        suggest_names("left-pad"),
        vec![
            "@types/left-pad".to_string(),
            "left-pad-js".to_string(),
            "left-padjs".to_string(),
            "leftpad".to_string()
        ]
    );
    assert_eq!(suggest_names("react"), vec![
        "@types/react".to_string(),
        "react-js".to_string(),
        "reactjs".to_string()
    ]);
    assert_eq!(suggest_names("@scope/x"), vec!["@scope/x-js".to_string(), "@scope/xjs".to_string()]);
    assert!(suggest_names("a-b-c").len() <= 5);
}

#[test]
fn statuses_become_errors() {
    assert!(status_error("p", 200, "OK").is_none());
    assert!(status_error("p", 204, "No Content").is_none());
    match status_error("reakt", 404, "Not Found") {
        Some(RpmError::PackageNotFound { name, suggestions }) => {
            assert_eq!(name, "reakt");
            assert_eq!(suggestions, suggest_names("reakt"));
        },
        _ => panic!("expected PackageNotFound"),
    }
    match status_error("p", 500, "Internal Server Error") {
        Some(RpmError::NetworkError { name, status, message }) => {
            assert_eq!(name, "p");
            assert_eq!(status, Some(500));
            assert_eq!(message, "Internal Server Error");
        },
        _ => panic!("expected NetworkError"),
    }
    assert!(matches!(status_error("p", 301, "Moved"), Some(RpmError::NetworkError { .. })));
    assert!(matches!(status_error("p", 199, "?"), Some(RpmError::NetworkError { .. })));
}

#[test]
fn transport_and_decode_failures() {
    match transport_error("p", "timed out") {
        RpmError::NetworkError { name, status, message } => {
            assert_eq!(name, "p");
            assert_eq!(status, None);
            assert_eq!(message, "timed out");
        },
        _ => panic!("expected NetworkError"),
    }
    match decode_error("p", "unexpected token") {
        RpmError::ParseError { name, message } => {
            assert_eq!(name, "p");
            assert_eq!(message, "unexpected token");
        },
        _ => panic!("expected ParseError"),
    }
}

#[test]
fn registry_address_and_memo() {
    let mut r = Registry::new();
    assert_eq!(r.base_url, "https://registry.npmjs.org");
    assert_eq!(r.package_url("left-pad"), "https://registry.npmjs.org/left-pad");
    assert_eq!(r.package_url("@types/node"), "https://registry.npmjs.org/@types/node");
    assert!(r.known("p").is_none());
    r.remember("p", package("p", &["1.0.0"], &[]));
    assert_eq!(r.known("p").map(|p| p.versions.len()), Some(1));
    assert!(r.known("q").is_none());
}

use rpm::platform::{get_current_cpu, get_current_os, is_platform_compatible, Platform};

fn list(tokens: &[&str]) -> Vec<String> {
    tokens.iter().map(|s| s.to_string()).collect()
}

fn on(os: &str, cpu: &str) -> Platform {
    Platform { os: os.to_string(), cpu: cpu.to_string() }
}

#[test]
fn operating_systems_by_their_names() {
    assert_eq!(get_current_os("windows"), "win32");
    assert_eq!(get_current_os("macos"), "darwin");
    assert_eq!(get_current_os("linux"), "linux");
    assert_eq!(get_current_os("freebsd"), "freebsd");
    assert_eq!(get_current_os("openbsd"), "openbsd");
    assert_eq!(get_current_os("android"), "android");
    assert_eq!(get_current_os("plan9"), "unknown");
}

#[test]
fn processors_by_their_names() {
    assert_eq!(get_current_cpu("x86_64"), "x64");
    assert_eq!(get_current_cpu("aarch64"), "arm64");
    assert_eq!(get_current_cpu("x86"), "ia32");
    assert_eq!(get_current_cpu("arm"), "arm");
    assert_eq!(get_current_cpu("riscv64"), "unknown");
}

#[test]
fn platform_of_a_target() {
    let p = Platform::of_target("macos", "aarch64");
    assert_eq!(p.os, "darwin");
    assert_eq!(p.cpu, "arm64");
    let q = Platform::of_target("haiku", "mips");
    assert_eq!(q.os, "unknown");
    assert_eq!(q.cpu, "unknown");
}

#[test]
fn empty_lists_admit_everything() {
    assert!(is_platform_compatible(&list(&[]), &list(&[]), &on("linux", "x64")));
    assert!(is_platform_compatible(&list(&[]), &list(&[]), &on("unknown", "unknown")));
}

#[test]
fn plain_lists_admit_what_they_name() {
    let os = list(&["linux", "darwin"]);
    assert!(is_platform_compatible(&os, &list(&[]), &on("linux", "x64")));
    assert!(is_platform_compatible(&os, &list(&[]), &on("darwin", "arm64")));
    assert!(!is_platform_compatible(&os, &list(&[]), &on("win32", "x64")));
    let cpu = list(&["arm64"]);
    assert!(is_platform_compatible(&list(&[]), &cpu, &on("linux", "arm64")));
    assert!(!is_platform_compatible(&list(&[]), &cpu, &on("linux", "x64")));
    assert!(!is_platform_compatible(&os, &cpu, &on("linux", "x64")));
}

#[test]
fn negated_lists_admit_what_they_do_not_exclude() {
    let os = list(&["!win32"]);
    assert!(is_platform_compatible(&os, &list(&[]), &on("linux", "x64")));
    assert!(!is_platform_compatible(&os, &list(&[]), &on("win32", "x64")));
    // With a negation in the list, a plain token does not exclude.
    let mixed = list(&["linux", "!win32"]);
    assert!(is_platform_compatible(&mixed, &list(&[]), &on("darwin", "x64")));
    assert!(!is_platform_compatible(&mixed, &list(&[]), &on("win32", "x64")));
    let cpu = list(&["!arm", "!ia32"]);
    assert!(!is_platform_compatible(&list(&[]), &cpu, &on("linux", "arm")));
    assert!(is_platform_compatible(&list(&[]), &cpu, &on("linux", "arm64")));
}

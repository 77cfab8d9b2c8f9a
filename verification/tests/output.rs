use rpm::colors::{BOLD, CYAN, GRAY, GREEN, RESET, YELLOW};
use rpm::output::{
    error, format_bytes, format_install_progress, format_progress_status, format_summary,
    format_workspace_summary, hint,
    info, join_with, maybe_strip_colors, package_added, package_removed, package_updated,
    should_use_colors, strip_colors, success, warning, RpmError,
};

#[test]
fn test_format_bytes() {
    assert_eq!(format_bytes(500), "500 B");
    assert_eq!(format_bytes(1500), "1.5 KB");
    assert_eq!(format_bytes(1500000), "1.43 MB");
}

#[test]
fn format_bytes_switches_units_at_powers_of_1024() {
    assert_eq!(format_bytes(0), "0 B");
    assert_eq!(format_bytes(1023), "1023 B");
    assert_eq!(format_bytes(1024), "1.0 KB");
    assert_eq!(format_bytes(1024 * 1024 - 1), "1024.0 KB");
    assert_eq!(format_bytes(1024 * 1024), "1.00 MB");
    assert_eq!(format_bytes(1024 * 1024 * 1024), "1.00 GB");
    assert_eq!(format_bytes(5 * 1024 * 1024 * 1024 + 512 * 1024 * 1024), "5.50 GB");
}

#[test]
fn format_bytes_matches_float_formatting() {
    let samples: [u64; 14] = [
        1075,
        1126,
        1177,
        1228,
        1536,
        10240,
        1049600,
        1053818,
        123456789,
        1073741824 + 5368709,
        9007199254740993,
        u64::MAX,
        u64::MAX - 1024,
        1u64 << 63,
    ];
    for bytes in samples {
        let expected = if bytes >= 1024 * 1024 * 1024 {
            format!("{:.2} GB", bytes as f64 / (1024.0 * 1024.0 * 1024.0))
        } else if bytes >= 1024 * 1024 {
            format!("{:.2} MB", bytes as f64 / (1024.0 * 1024.0))
        } else if bytes >= 1024 {
            format!("{:.1} KB", bytes as f64 / 1024.0)
        } else {
            format!("{} B", bytes)
        };
        assert_eq!(format_bytes(bytes), expected);
    }
}

#[test]
fn format_bytes_rounds_ties_to_even() {
    // 1.25 KB and 1.75 KB lie exactly between two tenths.
    assert_eq!(format_bytes(1280), "1.2 KB");
    assert_eq!(format_bytes(1792), "1.8 KB");
}

#[test]
fn summary_lists_what_was_done() {
    assert_eq!(
        format_summary(3, 2, Some(1)),
        format!(
            "{GREEN}+3{RESET} installed  {GRAY}│{RESET}  {YELLOW}2{RESET} cached  {GRAY}│{RESET}  {CYAN}1{RESET} linked"
        )
    );
    assert_eq!(format_summary(12, 0, None), format!("{GREEN}+12{RESET} installed"));
    assert_eq!(format_summary(0, 7, Some(0)), format!("{YELLOW}7{RESET} cached"));
}

#[test]
fn summary_of_nothing() {
    assert_eq!(format_summary(0, 0, None), format!("{GRAY}No packages to install{RESET}"));
    assert_eq!(format_summary(0, 0, Some(0)), format!("{GRAY}No packages to install{RESET}"));
}

#[test]
fn progress_status_names_the_counts() {
    assert_eq!(
        format_progress_status(10, 4, 0),
        format!(
            "{BOLD}Resolving{RESET} {CYAN}10{RESET} packages  {GRAY}│{RESET}  {BOLD}Installing{RESET} {GREEN}4{RESET}"
        )
    );
    assert_eq!(
        format_progress_status(10, 4, 6),
        format!(
            "{BOLD}Resolving{RESET} {CYAN}10{RESET} packages  {GRAY}│{RESET}  {BOLD}Installing{RESET} {GREEN}4{RESET}  {GRAY}│{RESET}  {GRAY}Cached{RESET} {YELLOW}6{RESET}"
        )
    );
}

#[test]
fn install_progress_message() {
    assert_eq!(
        format_install_progress(5, 2, 0, None),
        format!(
            "{BOLD}Resolved{RESET} {CYAN}5{RESET} {GRAY}│{RESET}  {BOLD}Installed{RESET} {GREEN}2{RESET}"
        )
    );
    assert_eq!(
        format_install_progress(5, 2, 1, Some("installing react")),
        format!(
            "{BOLD}Resolved{RESET} {CYAN}5{RESET} {GRAY}│{RESET}  {BOLD}Installed{RESET} {GREEN}2{RESET}  {GRAY}│{RESET}  {GRAY}Cached{RESET} {YELLOW}1{RESET}  {GRAY}│{RESET}  {GRAY}installing react{RESET}"
        )
    );
}

#[test]
fn join_with_puts_the_separator_between() {
    let parts = vec!["a".to_string(), "b".to_string(), "c".to_string()];
    assert_eq!(join_with(&parts, ", "), "a, b, c");
    assert_eq!(join_with(&vec!["only".to_string()], ", "), "only");
    assert_eq!(join_with(&Vec::new(), ", "), "");
}

#[test]
fn colours_are_stripped() {
    assert_eq!(strip_colors("\x1b[32m✓\x1b[0m done"), "✓ done");
    assert_eq!(strip_colors("plain"), "plain");
    assert_eq!(strip_colors("\x1b[1;31merror:\x1b[0m bad"), "error: bad");
    // An escape sequence that never ends swallows the rest.
    assert_eq!(strip_colors("a\x1b[1"), "a");
    assert_eq!(strip_colors("m\x1bmm"), "mm");
}

#[test]
fn colours_are_kept_when_wanted() {
    let line = "\x1b[32mok\x1b[0m";
    assert_eq!(maybe_strip_colors(line, true), line);
    assert_eq!(maybe_strip_colors(line, false), "ok");
}

#[test]
fn colour_switches() {
    assert!(!should_use_colors(true, true, true));
    assert!(should_use_colors(false, true, false));
    assert!(should_use_colors(false, false, true));
    assert!(!should_use_colors(false, false, false));
}

#[test]
fn message_lines() {
    assert_eq!(success("done", true), format!("{GREEN}✓{RESET} done"));
    assert_eq!(success("done", false), "✓ done");
    assert_eq!(warning("careful", false), "warn: careful");
    assert_eq!(error("broken", false), "error: broken");
    assert_eq!(info("note", false), "info: note");
    assert_eq!(hint("try this", false), "      try this");
    assert_eq!(package_added("react", "18.2.0", false), "+ react@18.2.0");
    assert_eq!(package_removed("react", false), "- react");
    assert_eq!(package_updated("react", "17.0.0", "18.2.0", false), "↑ react 17.0.0 → 18.2.0");
    assert_eq!(
        package_added("react", "18.2.0", true),
        format!("{GREEN}+{RESET} {BOLD}react{RESET}@{GRAY}18.2.0{RESET}")
    );
}

#[test]
fn package_not_found_message() {
    let e = RpmError::PackageNotFound {
        name: "reakt".to_string(),
        suggestions: vec![
            "react".to_string(),
            "reakt-js".to_string(),
            "reaktjs".to_string(),
            "fourth".to_string(),
        ],
    };
    assert_eq!(
        strip_colors(&e.message()),
        "Package 'reakt' not found in registry\n\n      Did you mean one of these?\n        • react\n        • reakt-js\n        • reaktjs\n\n      Tip: Check the package name spelling or search at https://www.npmjs.com"
    );
    let bare = RpmError::PackageNotFound { name: "x".to_string(), suggestions: Vec::new() };
    assert_eq!(
        strip_colors(&bare.message()),
        "Package 'x' not found in registry\n\n      Tip: Check the package name spelling or search at https://www.npmjs.com"
    );
    assert!(e.message().starts_with(&format!("Package {BOLD}'reakt'{RESET} not found")));
}

#[test]
fn version_not_found_message() {
    let available: Vec<String> =
        ["7.0.0", "6.0.0", "5.0.0", "4.0.0", "3.0.0", "2.0.0", "1.0.0"].iter().map(|s| s.to_string()).collect();
    let e = RpmError::VersionNotFound {
        name: "pkg".to_string(),
        requested: "^9".to_string(),
        available,
    };
    assert_eq!(
        strip_colors(&e.message()),
        "No version of 'pkg' matches '^9'\n\n      Available versions:\n        • 7.0.0\n        • 6.0.0\n        • 5.0.0\n        • 4.0.0\n        • 3.0.0\n        ... and 2 more\n\n      Tip: Use 'rpm info pkg' to see all available versions"
    );
    let none = RpmError::VersionNotFound {
        name: "pkg".to_string(),
        requested: "^9".to_string(),
        available: Vec::new(),
    };
    assert_eq!(
        strip_colors(&none.message()),
        "No version of 'pkg' matches '^9'\n\n      Tip: Use 'rpm info pkg' to see all available versions"
    );
}

#[test]
fn network_error_message() {
    let e = RpmError::NetworkError {
        name: "pkg".to_string(),
        status: Some(503),
        message: "Service Unavailable".to_string(),
    };
    assert_eq!(
        strip_colors(&e.message()),
        "Failed to fetch package 'pkg' (HTTP 503): Service Unavailable\n\n      Tip: Check your internet connection or try again later"
    );
    let gone = RpmError::NetworkError {
        name: "pkg".to_string(),
        status: Some(404),
        message: "Not Found".to_string(),
    };
    assert_eq!(
        strip_colors(&gone.message()),
        "Failed to fetch package 'pkg' (HTTP 404): Not Found\n\n      Tip: Check your internet connection or try again later\n           The package may have been unpublished or the name is incorrect"
    );
    let offline = RpmError::NetworkError {
        name: "pkg".to_string(),
        status: None,
        message: "connection refused".to_string(),
    };
    assert_eq!(
        strip_colors(&offline.message()),
        "Failed to fetch package 'pkg': connection refused\n\n      Tip: Check your internet connection or try again later"
    );
}

#[test]
fn other_error_messages() {
    let parse = RpmError::ParseError { name: "pkg".to_string(), message: "bad json".to_string() };
    assert_eq!(
        strip_colors(&parse.message()),
        "Failed to parse metadata for 'pkg': bad json\n\n      Tip: This may be a temporary registry issue. Try again later\n           or report this issue at https://github.com/lassejlv/rpm"
    );
    let script = RpmError::ScriptNotFound {
        script: "build".to_string(),
        available: vec!["test".to_string(), "lint".to_string()],
    };
    assert_eq!(
        strip_colors(&script.message()),
        "Script 'build' not found\n\n      Available scripts:\n        • test\n        • lint\n\n      Tip: Run 'rpm run' to see all available scripts"
    );
    let no_scripts = RpmError::ScriptNotFound { script: "build".to_string(), available: Vec::new() };
    assert_eq!(
        strip_colors(&no_scripts.message()),
        "Script 'build' not found\n\n      No scripts defined in package.json\n\n      Tip: Run 'rpm run' to see all available scripts"
    );
    let many = RpmError::ScriptNotFound {
        script: "x".to_string(),
        available: (0..12).map(|i| format!("s{}", i)).collect(),
    };
    assert!(strip_colors(&many.message()).contains("        • s9\n        ... and 2 more\n"));
    let binary =
        RpmError::BinaryNotFound { package: "pkg".to_string(), binary: "tool".to_string() };
    assert_eq!(
        strip_colors(&binary.message()),
        "Binary 'tool' not found in package 'pkg'\n\n      Tip: The package may not provide an executable binary\n           Check the package documentation at https://www.npmjs.com/package/pkg"
    );
    let workspace = RpmError::WorkspaceError { message: "no members".to_string() };
    assert_eq!(
        strip_colors(&workspace.message()),
        "no members\n\n      Tip: Make sure you're in a workspace root with 'workspaces' field in package.json"
    );
    let other = RpmError::Other { message: "oops".to_string(), hint: Some("retry".to_string()) };
    assert_eq!(strip_colors(&other.message()), "oops\n\n      Tip: retry");
    let plain = RpmError::Other { message: "oops".to_string(), hint: None };
    assert_eq!(plain.message(), "oops");
}

#[test]
fn workspace_summary_counts_the_linked_members() {
    assert_eq!(
        strip_colors(&format_workspace_summary(3, 1, 2)),
        "+3 installed  │  1 cached  │  2 linked"
    );
    assert_eq!(strip_colors(&format_workspace_summary(0, 4, 0)), "4 cached  │  0 linked");
    assert_eq!(strip_colors(&format_workspace_summary(0, 0, 2)), "2 workspace packages linked");
    assert_eq!(strip_colors(&format_workspace_summary(0, 0, 0)), "No packages to install");
    assert_eq!(
        format_workspace_summary(0, 0, 2),
        format!("{CYAN}2{RESET} workspace packages linked")
    );
}

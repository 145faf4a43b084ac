use vencord_installer::deps::{
    build_status, command_candidates, command_not_found_message, compare_versions,
    current_platform_key, detect_failure_message, extract_version, render_install_args,
    resolve_install_command, run_failure_message, spawn_failure_message, DependencySpec,
    InstallCommand, InstallEntry, VersionCmp,
};

fn spec_with_install(label: Option<&str>) -> DependencySpec {
    DependencySpec {
        id: "node".to_string(),
        name: "Node.js".to_string(),
        command: "node".to_string(),
        args: vec!["--version".to_string()],
        recommended_version: "20.11.0".to_string(),
        install_commands: vec![InstallEntry {
            platform: "linux".to_string(),
            install: InstallCommand {
                command: "apt".to_string(),
                args: vec!["install".to_string(), "node-{version}".to_string()],
                display_label: label.map(|l| l.to_string()),
            },
        }],
    }
}

#[test]
fn candidates_depend_on_the_platform() {
    assert_eq!(
        command_candidates("pnpm", true),
        vec!["pnpm.cmd", "pnpm.exe", "pnpm"]
    );
    assert_eq!(command_candidates("pnpm", false), vec!["pnpm"]);
}

#[test]
fn platform_keys_are_fixed() {
    assert_eq!(current_platform_key(true, false), "windows");
    assert_eq!(current_platform_key(false, true), "macos");
    assert_eq!(current_platform_key(false, false), "linux");
}

#[test]
fn versions_are_read_out_of_messy_output() {
    assert_eq!(extract_version("v18.17.0").as_deref(), Some("18.17.0"));
    assert_eq!(
        extract_version("git version 2.39.1 (Apple)").as_deref(),
        Some("2.39.1")
    );
    assert_eq!(extract_version("pnpm 8.6.12\n").as_deref(), Some("8.6.12"));
    assert_eq!(extract_version("no digits here").as_deref(), None);
    assert_eq!(extract_version("just 42").as_deref(), None);
    assert_eq!(extract_version("v1.2.").as_deref(), Some("1.2"));
    assert_eq!(extract_version("x10.0.19045.3086y").as_deref(), Some("10.0.19045.3086"));
    assert_eq!(extract_version("").as_deref(), None);
}

#[test]
fn version_comparison_is_numeric_per_segment() {
    assert_eq!(compare_versions("1.2", "1.10"), Some(VersionCmp::Less));
    assert_eq!(compare_versions("2.0", "2"), Some(VersionCmp::Equal));
    assert_eq!(compare_versions("1.2.1", "1.2"), Some(VersionCmp::Greater));
    assert_eq!(compare_versions("10.0", "9.9"), Some(VersionCmp::Greater));
    assert_eq!(compare_versions("abc", "1.0"), None);
    assert_eq!(compare_versions("1..2", "1.0"), None);
    assert_eq!(compare_versions("", "1"), None);
}

#[test]
fn install_args_substitute_the_version() {
    let args = vec!["install".to_string(), "node-{version}".to_string()];
    assert_eq!(
        render_install_args(&args, "20.11.0"),
        vec!["install", "node-20.11.0"]
    );
    let twice = vec!["{version}-{version}".to_string()];
    assert_eq!(render_install_args(&twice, "1"), vec!["1-1"]);
}

#[test]
fn install_commands_resolve_per_platform() {
    let spec = spec_with_install(None);
    assert_eq!(resolve_install_command(&spec, "linux"), Some(0));
    assert_eq!(resolve_install_command(&spec, "windows"), None);
}

#[test]
fn command_failures_report_streams_and_search_attempts() {
    assert_eq!(
        run_failure_message("pnpm.exe", "exit status: 1", "out", "err"),
        "pnpm.exe exited with status exit status: 1. Stdout: out\nStderr: err"
    );
    assert_eq!(
        detect_failure_message("node", "exit status: 127", "gone"),
        "node exited with status exit status: 127. Stderr: gone"
    );
    assert_eq!(
        spawn_failure_message("pnpm", "permission denied"),
        "pnpm: permission denied"
    );
    assert_eq!(command_not_found_message(), "Command not found");
}

#[test]
fn an_older_install_reports_outdated_with_the_recommendation() {
    let spec = spec_with_install(Some("Install Node 20"));
    let status = build_status(&spec, Ok(Some("18.17.0".to_string())), "linux");
    assert_eq!(status.status, "outdated");
    assert_eq!(status.installed_version.as_deref(), Some("18.17.0"));
    assert_eq!(
        status.message.as_deref(),
        Some("Recommended version is 20.11.0")
    );
    assert!(status.can_install);
    assert_eq!(status.install_label.as_deref(), Some("Install Node 20"));
}

#[test]
fn a_recent_install_reports_installed_without_an_offer() {
    let spec = spec_with_install(Some("Install Node 20"));
    let status = build_status(&spec, Ok(Some("21.0.0".to_string())), "linux");
    assert_eq!(status.status, "installed");
    assert!(status.message.is_none());
    assert!(!status.can_install);
    assert!(status.install_label.is_none());
}

#[test]
fn an_absent_tool_reports_missing() {
    let spec = spec_with_install(None);
    let status = build_status(&spec, Ok(None), "linux");
    assert_eq!(status.status, "missing");
    assert_eq!(status.message.as_deref(), Some("Not detected in PATH"));
    assert!(status.can_install);
    assert!(status.installed_version.is_none());
}

#[test]
fn a_failed_detection_reports_the_error() {
    let spec = spec_with_install(None);
    let status = build_status(
        &spec,
        Err("node exited with status 1. Stderr: boom".to_string()),
        "windows",
    );
    assert_eq!(status.status, "error");
    assert_eq!(
        status.message.as_deref(),
        Some("node exited with status 1. Stderr: boom")
    );
    assert!(!status.can_install); // no install command for this platform
}

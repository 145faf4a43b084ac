use vencord_installer::process::{
    assemble_quiesce, close_discord_clients, confirm_closed, dedupe_processes,
    fallback_closed_names, filter_discord_processes, is_discord_process,
    matches_known_process_name, parent_dir_of, restart_target, take_last_closed_state,
    DiscordClientsState, DiscordProcess, LastClosedCache,
};

fn proc(pid: u32, name: &str, exe: Option<&str>) -> DiscordProcess {
    DiscordProcess {
        pid,
        name: name.to_string(),
        exe: exe.map(|e| e.to_string()),
        cmd: Vec::new(),
    }
}

#[test]
fn known_names_match_case_insensitively_with_and_without_suffix() {
    assert!(matches_known_process_name("discord"));
    assert!(matches_known_process_name("Discord"));
    assert!(matches_known_process_name("DISCORDPTB"));
    assert!(matches_known_process_name("discordcanary"));
    assert!(matches_known_process_name("Discord.exe"));
    assert!(matches_known_process_name("DiscordPTB.EXE"));
    assert!(!matches_known_process_name("chrome"));
    assert!(!matches_known_process_name("discordx"));
    assert!(!matches_known_process_name(""));
}

#[test]
fn signature_match_checks_stem_file_name_and_raw_name() {
    assert!(is_discord_process(&proc(1, "other", Some("/opt/discord/Discord"))));
    assert!(is_discord_process(&proc(2, "other", Some("C:\\apps\\Discord.exe"))));
    assert!(is_discord_process(&proc(3, "discordptb", None)));
    assert!(!is_discord_process(&proc(4, "bash", Some("/bin/bash"))));
}

#[test]
fn dedupe_collapses_same_executable_under_different_pids() {
    let a = proc(100, "discord", Some("/opt/discord/Discord"));
    let b = proc(200, "discord", Some("/opt/discord/Discord"));
    let (names, unique) = dedupe_processes(&vec![a, b]);
    assert_eq!(unique.len(), 1);
    assert_eq!(unique[0].pid, 100);
    assert_eq!(names, vec!["Discord"]);
}

#[test]
fn dedupe_keeps_first_seen_order_and_best_display_names() {
    let list = vec![
        proc(1, "discordptb", None),
        proc(2, "x", Some("/opt/discord/Discord")),
        proc(3, "discordptb", None),
    ];
    let (names, unique) = dedupe_processes(&list);
    assert_eq!(names, vec!["discordptb", "Discord"]);
    assert_eq!(unique.len(), 2);
    assert_eq!(unique[0].pid, 1);
    assert_eq!(unique[1].pid, 2);
}

#[test]
fn quiesce_disabled_reports_skip_and_clears_the_cache() {
    let mut cache = LastClosedCache::new();
    let state = close_discord_clients(&mut cache, false);
    assert!(state.closing_skipped);
    assert!(state.closed_clients.is_empty());
    assert!(state.processes.is_empty());
    let taken = take_last_closed_state(&mut cache);
    assert!(taken.closing_skipped);
    assert!(taken.processes.is_empty());
}

#[test]
fn taking_the_cache_clears_it() {
    let mut cache = LastClosedCache::new();
    cache.processes.push(proc(7, "discord", None));
    cache.closing_skipped = false;
    let first = take_last_closed_state(&mut cache);
    assert_eq!(first.processes.len(), 1);
    assert!(!first.closing_skipped);
    let second = take_last_closed_state(&mut cache);
    assert!(second.processes.is_empty());
    assert!(!second.closing_skipped);
}

#[test]
fn quiesce_reports_two_instances_whatever_the_suffix_convention() {
    // Unix-style paths without a suffix.
    let captured = vec![
        proc(1, "discord", Some("/usr/share/discord/Discord")),
        proc(2, "discordptb", Some("/usr/share/discordptb/DiscordPTB")),
    ];
    let closed = vec![
        proc(1, "discord", Some("/usr/share/discord/Discord")),
        proc(2, "discordptb", Some("/usr/share/discordptb/DiscordPTB")),
    ];
    let state = assemble_quiesce(&captured, &closed);
    assert_eq!(state.closed_clients.len(), 2);
    assert!(!state.closing_skipped);

    // Windows-style paths with the executable suffix.
    let captured_win = vec![
        proc(1, "Discord.exe", Some("C:\\D\\Discord.exe")),
        proc(2, "DiscordPTB.exe", Some("C:\\P\\DiscordPTB.exe")),
    ];
    let closed_win = vec![
        proc(1, "Discord.exe", Some("C:\\D\\Discord.exe")),
        proc(2, "DiscordPTB.exe", Some("C:\\P\\DiscordPTB.exe")),
    ];
    let state_win = assemble_quiesce(&captured_win, &closed_win);
    assert_eq!(state_win.closed_clients.len(), 2);
}

#[test]
fn quiesce_falls_back_to_captured_when_nothing_confirmed_closed() {
    let captured = vec![proc(1, "discord", Some("/opt/discord/Discord"))];
    let closed: Vec<DiscordProcess> = Vec::new();
    let state = assemble_quiesce(&captured, &closed);
    // The host is assumed unreachable and reported closed anyway.
    assert_eq!(state.closed_clients, vec!["Discord"]);
    assert_eq!(state.processes.len(), 1);
}

#[test]
fn quiesce_records_the_whole_capture_not_just_the_confirmed() {
    // Two captured instances of distinct identity, only one confirmed
    // closed: both are recorded for the later restore, while the
    // closed-names report leans on what termination confirmed.
    let captured = vec![
        proc(1, "discord", Some("/usr/share/discord/Discord")),
        proc(2, "discordptb", Some("/usr/share/discordptb/DiscordPTB")),
    ];
    let closed = vec![proc(1, "discord", Some("/usr/share/discord/Discord"))];
    let state = assemble_quiesce(&captured, &closed);
    assert_eq!(state.processes.len(), 2);
    assert_eq!(state.processes[0].pid, 1);
    assert_eq!(state.processes[1].pid, 2);
    assert_eq!(state.closed_clients, vec!["Discord"]);
}

#[test]
fn filtering_keeps_exactly_the_host_processes_in_order() {
    let all = vec![
        proc(10, "bash", Some("/bin/bash")),
        proc(11, "discord", Some("/opt/discord/Discord")),
        proc(12, "chrome", None),
        proc(13, "discordptb", None),
    ];
    let kept = filter_discord_processes(all);
    assert_eq!(kept.len(), 2);
    assert_eq!(kept[0].pid, 11);
    assert_eq!(kept[1].pid, 13);
}

#[test]
fn a_kill_attempt_confirms_closure_by_success_or_absence() {
    // Already gone counts as closed.
    assert!(confirm_closed(None, false));
    // The kill reported success.
    assert!(confirm_closed(Some(true), true));
    // The kill failed but the process is gone on the re-check.
    assert!(confirm_closed(Some(false), false));
    // The kill failed and the process is still there.
    assert!(!confirm_closed(Some(false), true));
}

#[test]
fn quiesce_of_nothing_reports_nothing() {
    let none: Vec<DiscordProcess> = Vec::new();
    let state = assemble_quiesce(&none, &none);
    assert!(state.closed_clients.is_empty());
    assert!(state.processes.is_empty());
    assert!(!state.closing_skipped);
}

#[test]
fn fallback_names_use_raw_names_only_when_the_report_is_empty() {
    let state = DiscordClientsState {
        closed_clients: Vec::new(),
        processes: vec![proc(5, "discordcanary", None)],
        closing_skipped: false,
    };
    assert_eq!(fallback_closed_names(&state), vec!["discordcanary"]);
    let reported = DiscordClientsState {
        closed_clients: vec!["Discord".to_string()],
        processes: vec![proc(5, "discordcanary", None)],
        closing_skipped: false,
    };
    assert_eq!(fallback_closed_names(&reported), vec!["Discord"]);
}

#[test]
fn restart_target_prefers_exe_then_command_line() {
    let with_exe = proc(1, "discord", Some("/opt/discord/Discord"));
    assert_eq!(restart_target(&with_exe).unwrap(), "/opt/discord/Discord");

    let mut with_cmd = proc(2, "discord", None);
    with_cmd.cmd.push("/usr/bin/discord".to_string());
    with_cmd.cmd.push("--flag".to_string());
    assert_eq!(restart_target(&with_cmd).unwrap(), "/usr/bin/discord");

    let bare = proc(3, "discord", None);
    assert_eq!(
        restart_target(&bare).unwrap_err(),
        "Could not determine restart command for Discord process discord"
    );
}

#[test]
fn parent_directories_are_derived_from_the_launch_target() {
    assert_eq!(parent_dir_of("/opt/discord/Discord").unwrap(), "/opt/discord");
    assert_eq!(parent_dir_of("C:\\apps\\Discord.exe").unwrap(), "C:\\apps");
    assert_eq!(parent_dir_of("/Discord").unwrap(), "/");
    assert!(parent_dir_of("Discord").is_none());
}

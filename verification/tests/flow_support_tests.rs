use vencord_installer::backup::{is_cross_device_link, is_prunable_artifact, path_within};
use vencord_installer::discord::{
    add_candidates, resolve_selected_discord_locations, DiscordInstall, InstallCandidate,
};
use vencord_installer::options::ProvidedThemeInfo;
use vencord_installer::repo::{plan_repo_sync, vencord_repo_path, RepoSyncAction};
use vencord_installer::themes::{download_summary, theme_backup_file_names, theme_file_name};

fn theme_info(id: &str, url: &str) -> ProvidedThemeInfo {
    ProvidedThemeInfo {
        id: id.to_string(),
        name: format!("name-{id}"),
        url: url.to_string(),
    }
}

#[test]
fn theme_files_are_the_last_address_segment() {
    let t = theme_info("t", "https://host/dir/fancy.theme.css");
    assert_eq!(theme_file_name(&t).unwrap(), "fancy.theme.css");
    let bare = theme_info("b", "nopath");
    assert_eq!(theme_file_name(&bare).unwrap(), "nopath");
}

#[test]
fn backup_file_names_skip_addresses_without_a_name() {
    let themes = vec![
        theme_info("a", "https://host/a.css"),
        theme_info("b", "https://host/dir/"),
        theme_info("c", "https://host/c.css"),
    ];
    assert_eq!(theme_backup_file_names(&themes), vec!["a.css", "c.css"]);
}

#[test]
fn download_summaries_count_and_join_names() {
    let names = vec!["one.css".to_string(), "two.css".to_string()];
    assert_eq!(
        download_summary(&names),
        "Downloaded 2 theme(s): one.css, two.css"
    );
    let single = vec!["only.css".to_string()];
    assert_eq!(download_summary(&single), "Downloaded 1 theme(s): only.css");
    let none: Vec<String> = Vec::new();
    assert_eq!(download_summary(&none), "Downloaded 0 theme(s): ");
}

#[test]
fn cross_device_codes_force_the_copy_fallback() {
    assert!(is_cross_device_link(Some(18), false, false));
    assert!(is_cross_device_link(Some(17), false, true));
    assert!(is_cross_device_link(None, true, false));
    assert!(!is_cross_device_link(None, true, true));
    assert!(!is_cross_device_link(Some(2), false, false));
    assert!(!is_cross_device_link(None, false, false));
}

#[test]
fn containment_requires_a_component_boundary() {
    assert!(path_within("/cfg/backups", "/cfg/backups"));
    assert!(path_within("/cfg/backups", "/cfg/backups/2024"));
    assert!(!path_within("/cfg/backups", "/cfg/backups-evil"));
    assert!(!path_within("/cfg/backups", "/elsewhere"));
    assert!(path_within("C:\\cfg\\backups", "C:\\cfg\\backups\\x"));
}

#[test]
fn prunable_artifacts_are_exactly_the_dependency_cache() {
    assert!(is_prunable_artifact("node_modules"));
    assert!(!is_prunable_artifact("node_modules2"));
    assert!(!is_prunable_artifact("src"));
}

#[test]
fn repo_paths_pass_through() {
    assert_eq!(vencord_repo_path("/home/u/Vencord"), "/home/u/Vencord");
}

#[test]
fn sync_planning_covers_every_disk_state() {
    assert!(matches!(
        plan_repo_sync("/p", true, true, true, false),
        RepoSyncAction::Pull
    ));
    assert!(matches!(
        plan_repo_sync("/p", true, false, true, true),
        RepoSyncAction::CloneHere
    ));
    assert!(matches!(
        plan_repo_sync("/p", false, false, false, false),
        RepoSyncAction::CreateParentAndClone
    ));
    match plan_repo_sync("/p", true, false, true, false) {
        RepoSyncAction::Fail(msg) => assert_eq!(
            msg,
            "Existing path /p is not a git repository. Remove it or choose an empty directory before syncing"
        ),
        _ => panic!("expected a failure"),
    }
    match plan_repo_sync("/p", true, false, false, false) {
        RepoSyncAction::Fail(msg) => assert_eq!(
            msg,
            "Existing path /p is not a directory. Choose a directory for the Vencord clone"
        ),
        _ => panic!("expected a failure"),
    }
}

#[test]
fn candidates_present_on_disk_become_installs() {
    let mut installs: Vec<DiscordInstall> = Vec::new();
    let candidates = vec![
        InstallCandidate {
            id: "stable".to_string(),
            name: "Discord Stable".to_string(),
            path: "/home/u/.config/discord".to_string(),
            present: true,
        },
        InstallCandidate {
            id: "ptb".to_string(),
            name: "Discord PTB".to_string(),
            path: "/home/u/.config/discordptb".to_string(),
            present: false,
        },
    ];
    add_candidates(&mut installs, candidates);
    assert_eq!(installs.len(), 1);
    assert_eq!(installs[0].id, "stable");
    assert_eq!(installs[0].path, "/home/u/.config/discord");
}

#[test]
fn selected_locations_resolve_or_name_every_missing_id() {
    let installs = vec![
        DiscordInstall {
            id: "stable".to_string(),
            name: "Discord Stable".to_string(),
            path: "/cfg/discord".to_string(),
        },
        DiscordInstall {
            id: "ptb".to_string(),
            name: "Discord PTB".to_string(),
            path: "/cfg/discordptb".to_string(),
        },
    ];
    let ok = resolve_selected_discord_locations(
        &vec!["ptb".to_string(), "stable".to_string()],
        &installs,
    );
    assert_eq!(ok.unwrap(), vec!["/cfg/discordptb", "/cfg/discord"]);

    let err = resolve_selected_discord_locations(
        &vec!["stable".to_string(), "canary".to_string(), "dev".to_string()],
        &installs,
    );
    assert_eq!(
        err.unwrap_err(),
        "The following Discord client selections are not installed: canary, dev"
    );

    let empty = resolve_selected_discord_locations(&Vec::new(), &installs);
    assert_eq!(empty.unwrap(), Vec::<String>::new());
}

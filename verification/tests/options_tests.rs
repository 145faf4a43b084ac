use vencord_installer::options::{
    default_repo_base_dir, default_selected_discord_clients, default_user_options,
    default_vencord_repo_url, legacy_repo_base_dir, merge_provided_repositories,
    merge_provided_themes, reconcile_options, resolve_plugin_repositories, resolve_themes,
    to_response, to_storage, ProvidedRepository, ProvidedRepositoryState, ProvidedTheme,
    ProvidedThemeState, ProvidedThemeView, UserOptions,
};

fn repo(id: &str, url: &str, default_enabled: bool) -> ProvidedRepository {
    ProvidedRepository {
        id: id.to_string(),
        name: format!("name-{id}"),
        url: url.to_string(),
        description: format!("desc-{id}"),
        default_enabled,
    }
}

fn theme(id: &str, url: &str, default_enabled: bool) -> ProvidedTheme {
    ProvidedTheme {
        id: id.to_string(),
        name: format!("theme-{id}"),
        url: url.to_string(),
        description: format!("desc-{id}"),
        default_enabled,
    }
}

fn base_options(repos: &Vec<ProvidedRepository>, themes: &Vec<ProvidedTheme>) -> UserOptions {
    default_user_options(repos, themes, "/home/u/Vencord".to_string())
}

#[test]
fn defaults_follow_the_catalogues() {
    let repos = vec![repo("r1", "https://r1", true), repo("r2", "https://r2", false)];
    let themes = vec![theme("t1", "https://t1/a.css", false)];
    let o = base_options(&repos, &themes);
    assert_eq!(o.vencord_repo_url, default_vencord_repo_url());
    assert_eq!(o.vencord_repo_dir, "/home/u/Vencord");
    assert_eq!(o.provided_repositories.len(), 2);
    assert!(o.provided_repositories[0].enabled);
    assert!(!o.provided_repositories[1].enabled);
    assert!(o.close_discord_on_backup);
    assert_eq!(o.selected_discord_clients, vec!["stable"]);
    assert_eq!(default_selected_discord_clients(), vec!["stable"]);
}

#[test]
fn default_and_legacy_directories_use_the_platform_separator() {
    assert_eq!(default_repo_base_dir("/home/u", false), "/home/u/Vencord");
    assert_eq!(default_repo_base_dir("C:\\Users\\u", true), "C:\\Users\\u\\Vencord");
    assert_eq!(
        legacy_repo_base_dir("/home/u", false),
        "/home/u/Documents/Vencord"
    );
}

#[test]
fn reconcile_migrates_the_legacy_directory() {
    let repos = Vec::new();
    let themes = Vec::new();
    let mut o = base_options(&repos, &themes);
    o.vencord_repo_dir = "/home/u/Documents/Vencord".to_string();
    let (r, updated) = reconcile_options(
        o,
        &repos,
        &themes,
        "/home/u/Vencord",
        "/home/u/Documents/Vencord",
    );
    assert!(updated);
    assert_eq!(r.vencord_repo_dir, "/home/u/Vencord");
}

#[test]
fn reconcile_swaps_a_saved_copy_of_an_old_default_url() {
    let repos = Vec::new();
    let themes = Vec::new();
    let mut o = base_options(&repos, &themes);
    o.vencord_repo_url = "https://old.example/repo.git".to_string();
    o.vencord_repo_url_default = Some("https://old.example/repo.git".to_string());
    let (r, updated) = reconcile_options(o, &repos, &themes, "/h/Vencord", "/h/Documents/Vencord");
    assert!(updated);
    assert_eq!(r.vencord_repo_url, default_vencord_repo_url());
    assert_eq!(
        r.vencord_repo_url_default.as_deref(),
        Some(default_vencord_repo_url())
    );
}

#[test]
fn reconcile_keeps_a_customised_url() {
    let repos = Vec::new();
    let themes = Vec::new();
    let mut o = base_options(&repos, &themes);
    o.vencord_repo_url = "https://my.fork/repo.git".to_string();
    o.vencord_repo_url_default = Some("https://old.example/repo.git".to_string());
    let (r, _) = reconcile_options(o, &repos, &themes, "/h/Vencord", "/h/Documents/Vencord");
    assert_eq!(r.vencord_repo_url, "https://my.fork/repo.git");
}

#[test]
fn reconcile_rebuilds_choices_against_the_catalogue() {
    let repos = vec![repo("kept", "https://kept", false), repo("new", "https://new", true)];
    let themes = Vec::new();
    let mut o = base_options(&Vec::new(), &Vec::new());
    o.provided_repositories = vec![
        ProvidedRepositoryState { id: "kept".to_string(), enabled: true },
        ProvidedRepositoryState { id: "gone".to_string(), enabled: true },
    ];
    let (r, updated) = reconcile_options(o, &repos, &themes, "/h/Vencord", "/h/Documents/Vencord");
    assert!(updated);
    assert_eq!(r.provided_repositories.len(), 2);
    assert_eq!(r.provided_repositories[0].id, "kept");
    assert!(r.provided_repositories[0].enabled); // saved choice kept
    assert_eq!(r.provided_repositories[1].id, "new");
    assert!(r.provided_repositories[1].enabled); // catalogue default
}

#[test]
fn reconcile_of_settled_options_reports_no_update() {
    let repos = vec![repo("a", "https://a", true)];
    let themes = vec![theme("t", "https://t/x.css", true)];
    let o = base_options(&repos, &themes);
    let (_, updated) = reconcile_options(o, &repos, &themes, "/h/V", "/h/Documents/V");
    assert!(!updated);
}

#[test]
fn merging_prefers_the_stored_choice_and_falls_back_to_defaults() {
    let repos = vec![repo("a", "https://a", true), repo("b", "https://b", false)];
    let saved = vec![ProvidedRepositoryState { id: "b".to_string(), enabled: true }];
    let rows = merge_provided_repositories(&saved, &repos);
    assert_eq!(rows.len(), 2);
    assert!(rows[0].enabled); // default
    assert!(rows[1].enabled); // stored override
    assert_eq!(rows[1].url, "https://b");

    let themes = vec![theme("t", "https://t/x.css", true)];
    let saved_t = vec![ProvidedThemeState { id: "t".to_string(), enabled: false }];
    let trows = merge_provided_themes(&saved_t, &themes);
    assert!(!trows[0].enabled);
}

#[test]
fn storage_drops_choices_the_catalogue_does_not_know() {
    let repos = vec![repo("known", "https://k", true)];
    let themes = vec![theme("kt", "https://kt/x.css", true)];
    let o = base_options(&repos, &themes);
    let mut resp = to_response(o, &repos, &themes);
    resp.provided_themes.push(ProvidedThemeView {
        id: "stranger".to_string(),
        name: "s".to_string(),
        url: "https://s".to_string(),
        description: String::new(),
        default_enabled: false,
        enabled: true,
    });
    let stored = to_storage(resp, &repos, &themes);
    assert_eq!(stored.provided_repositories.len(), 1);
    assert_eq!(stored.provided_themes.len(), 1);
    assert_eq!(stored.provided_themes[0].id, "kt");
    assert_eq!(
        stored.vencord_repo_url_default.as_deref(),
        Some(default_vencord_repo_url())
    );
}

#[test]
fn plugin_repositories_are_enabled_catalogue_urls_plus_user_entries() {
    let repos = vec![
        repo("on", "https://on", true),
        repo("off", "https://off", false),
    ];
    let mut o = base_options(&repos, &Vec::new());
    o.user_repositories = vec![
        "https://mine".to_string(),
        "   ".to_string(),
        "https://more".to_string(),
    ];
    let urls = resolve_plugin_repositories(&o, &repos);
    assert_eq!(urls, vec!["https://on", "https://mine", "https://more"]);
}

#[test]
fn themes_resolve_catalogue_entries_then_numbered_user_entries() {
    let themes = vec![
        theme("t1", "https://t/one.css", true),
        theme("t2", "https://t/two.css", false),
    ];
    let mut o = base_options(&Vec::new(), &themes);
    o.user_themes = vec![
        " https://u/custom.theme.css ".to_string(),
        "".to_string(),
        "https://u/trailing/".to_string(),
    ];
    let resolved = resolve_themes(&o, &themes);
    assert_eq!(resolved.len(), 3);
    assert_eq!(resolved[0].id, "t1");
    assert_eq!(resolved[0].name, "theme-t1");
    assert_eq!(resolved[1].id, "user-theme-1");
    assert_eq!(resolved[1].name, "custom.theme.css");
    assert_eq!(resolved[1].url, "https://u/custom.theme.css");
    // An address ending in a separator falls back to the whole address.
    assert_eq!(resolved[2].id, "user-theme-3");
    assert_eq!(resolved[2].name, "https://u/trailing/");
}

//! User options: the provided plugin-repository and theme catalogues,
//! the stored and the displayed form of the options, their
//! reconciliation against the catalogues, and the resolution of the
//! repository and theme lists a pipeline run works from.
//!
//! The catalogues themselves and the options file live outside; the
//! surrounding application parses them and hands the plain values in.

use vstd::prelude::*;

use crate::text::{dec_rep, spec_trim, str_eq, suffix_after_last, trim_ascii, u128_to_string};

verus! {

/// A catalogue entry: one provided plugin repository or theme.
pub struct CatalogEntryView {
    pub id: Seq<char>,
    pub name: Seq<char>,
    pub url: Seq<char>,
    pub description: Seq<char>,
    pub default_enabled: bool,
}

/// A stored per-entry choice: an id and whether it is enabled.
pub struct IdFlagView {
    pub id: Seq<char>,
    pub enabled: bool,
}

/// A catalogue entry as displayed, with the effective choice.
pub struct CatalogRowView {
    pub id: Seq<char>,
    pub name: Seq<char>,
    pub url: Seq<char>,
    pub description: Seq<char>,
    pub default_enabled: bool,
    pub enabled: bool,
}

/// A theme to download: id, display name and source address.
pub struct ThemeSourceView {
    pub id: Seq<char>,
    pub name: Seq<char>,
    pub url: Seq<char>,
}

/// One provided plugin repository of the catalogue.
pub struct ProvidedRepository {
    pub id: String,
    pub name: String,
    pub url: String,
    pub description: String,
    pub default_enabled: bool,
}

impl View for ProvidedRepository {
    type V = CatalogEntryView;

    open spec fn view(&self) -> CatalogEntryView {
        CatalogEntryView {
            id: self.id@,
            name: self.name@,
            url: self.url@,
            description: self.description@,
            default_enabled: self.default_enabled,
        }
    }
}

impl DeepView for ProvidedRepository {
    type V = CatalogEntryView;

    open spec fn deep_view(&self) -> CatalogEntryView {
        self.view()
    }
}

/// One provided theme of the catalogue.
pub struct ProvidedTheme {
    pub id: String,
    pub name: String,
    pub url: String,
    pub description: String,
    pub default_enabled: bool,
}

impl View for ProvidedTheme {
    type V = CatalogEntryView;

    open spec fn view(&self) -> CatalogEntryView {
        CatalogEntryView {
            id: self.id@,
            name: self.name@,
            url: self.url@,
            description: self.description@,
            default_enabled: self.default_enabled,
        }
    }
}

impl DeepView for ProvidedTheme {
    type V = CatalogEntryView;

    open spec fn deep_view(&self) -> CatalogEntryView {
        self.view()
    }
}

/// The stored choice for one provided repository.
pub struct ProvidedRepositoryState {
    pub id: String,
    pub enabled: bool,
}

impl View for ProvidedRepositoryState {
    type V = IdFlagView;

    open spec fn view(&self) -> IdFlagView {
        IdFlagView { id: self.id@, enabled: self.enabled }
    }
}

impl DeepView for ProvidedRepositoryState {
    type V = IdFlagView;

    open spec fn deep_view(&self) -> IdFlagView {
        self.view()
    }
}

/// The stored choice for one provided theme.
pub struct ProvidedThemeState {
    pub id: String,
    pub enabled: bool,
}

impl View for ProvidedThemeState {
    type V = IdFlagView;

    open spec fn view(&self) -> IdFlagView {
        IdFlagView { id: self.id@, enabled: self.enabled }
    }
}

impl DeepView for ProvidedThemeState {
    type V = IdFlagView;

    open spec fn deep_view(&self) -> IdFlagView {
        self.view()
    }
}

/// A provided repository as displayed.
pub struct ProvidedRepositoryView {
    pub id: String,
    pub name: String,
    pub url: String,
    pub description: String,
    pub default_enabled: bool,
    pub enabled: bool,
}

impl View for ProvidedRepositoryView {
    type V = CatalogRowView;

    open spec fn view(&self) -> CatalogRowView {
        CatalogRowView {
            id: self.id@,
            name: self.name@,
            url: self.url@,
            description: self.description@,
            default_enabled: self.default_enabled,
            enabled: self.enabled,
        }
    }
}

impl DeepView for ProvidedRepositoryView {
    type V = CatalogRowView;

    open spec fn deep_view(&self) -> CatalogRowView {
        self.view()
    }
}

/// A provided theme as displayed.
pub struct ProvidedThemeView {
    pub id: String,
    pub name: String,
    pub url: String,
    pub description: String,
    pub default_enabled: bool,
    pub enabled: bool,
}

impl View for ProvidedThemeView {
    type V = CatalogRowView;

    open spec fn view(&self) -> CatalogRowView {
        CatalogRowView {
            id: self.id@,
            name: self.name@,
            url: self.url@,
            description: self.description@,
            default_enabled: self.default_enabled,
            enabled: self.enabled,
        }
    }
}

impl DeepView for ProvidedThemeView {
    type V = CatalogRowView;

    open spec fn deep_view(&self) -> CatalogRowView {
        self.view()
    }
}

/// A theme to download.
pub struct ProvidedThemeInfo {
    pub id: String,
    pub name: String,
    pub url: String,
}

impl View for ProvidedThemeInfo {
    type V = ThemeSourceView;

    open spec fn view(&self) -> ThemeSourceView {
        ThemeSourceView { id: self.id@, name: self.name@, url: self.url@ }
    }
}

impl DeepView for ProvidedThemeInfo {
    type V = ThemeSourceView;

    open spec fn deep_view(&self) -> ThemeSourceView {
        self.view()
    }
}

/// The stored form of the user options.
pub struct UserOptions {
    pub vencord_repo_url: String,
    pub vencord_repo_dir: String,
    pub vencord_repo_url_default: Option<String>,
    pub user_repositories: Vec<String>,
    pub user_themes: Vec<String>,
    pub provided_repositories: Vec<ProvidedRepositoryState>,
    pub provided_themes: Vec<ProvidedThemeState>,
    pub close_discord_on_backup: bool,
    pub selected_discord_clients: Vec<String>,
}

/// The mathematical value of the stored options.
pub struct UserOptionsView {
    pub vencord_repo_url: Seq<char>,
    pub vencord_repo_dir: Seq<char>,
    pub vencord_repo_url_default: Option<Seq<char>>,
    pub user_repositories: Seq<Seq<char>>,
    pub user_themes: Seq<Seq<char>>,
    pub provided_repositories: Seq<IdFlagView>,
    pub provided_themes: Seq<IdFlagView>,
    pub close_discord_on_backup: bool,
    pub selected_discord_clients: Seq<Seq<char>>,
}

impl View for UserOptions {
    type V = UserOptionsView;

    open spec fn view(&self) -> UserOptionsView {
        UserOptionsView {
            vencord_repo_url: self.vencord_repo_url@,
            vencord_repo_dir: self.vencord_repo_dir@,
            vencord_repo_url_default: match self.vencord_repo_url_default {
                Some(u) => Some(u@),
                None => None,
            },
            user_repositories: self.user_repositories.deep_view(),
            user_themes: self.user_themes.deep_view(),
            provided_repositories: self.provided_repositories.deep_view(),
            provided_themes: self.provided_themes.deep_view(),
            close_discord_on_backup: self.close_discord_on_backup,
            selected_discord_clients: self.selected_discord_clients.deep_view(),
        }
    }
}

/// The options as displayed, with the catalogues merged in.
pub struct OptionsResponse {
    pub vencord_repo_url: String,
    pub vencord_repo_dir: String,
    pub user_repositories: Vec<String>,
    pub user_themes: Vec<String>,
    pub provided_repositories: Vec<ProvidedRepositoryView>,
    pub provided_themes: Vec<ProvidedThemeView>,
    pub close_discord_on_backup: bool,
    pub selected_discord_clients: Vec<String>,
}

/// The mathematical value of the displayed options.
pub struct OptionsResponseView {
    pub vencord_repo_url: Seq<char>,
    pub vencord_repo_dir: Seq<char>,
    pub user_repositories: Seq<Seq<char>>,
    pub user_themes: Seq<Seq<char>>,
    pub provided_repositories: Seq<CatalogRowView>,
    pub provided_themes: Seq<CatalogRowView>,
    pub close_discord_on_backup: bool,
    pub selected_discord_clients: Seq<Seq<char>>,
}

impl View for OptionsResponse {
    type V = OptionsResponseView;

    open spec fn view(&self) -> OptionsResponseView {
        OptionsResponseView {
            vencord_repo_url: self.vencord_repo_url@,
            vencord_repo_dir: self.vencord_repo_dir@,
            user_repositories: self.user_repositories.deep_view(),
            user_themes: self.user_themes.deep_view(),
            provided_repositories: self.provided_repositories.deep_view(),
            provided_themes: self.provided_themes.deep_view(),
            close_discord_on_backup: self.close_discord_on_backup,
            selected_discord_clients: self.selected_discord_clients.deep_view(),
        }
    }
}

/// The built-in address of the upstream source repository.
pub fn default_vencord_repo_url() -> (r: &'static str)
    ensures
        r@ == "https://github.com/Vendicated/Vencord.git"@,
{
    "https://github.com/Vendicated/Vencord.git"
}

/// The default of a flag that starts switched on.
pub fn default_true() -> (r: bool)
    ensures
        r,
{
    true
}

/// The host-application builds selected by default.
pub fn default_selected_discord_clients() -> (r: Vec<String>)
    ensures
        r.deep_view() =~= seq!["stable"@],
{
    let mut v: Vec<String> = Vec::new();
    v.push(String::from_str("stable"));
    proof {
        assert(v.deep_view() =~= seq!["stable"@]);
    }
    v
}

/// The effective choice for an id: the last stored entry with that id
/// wins, and without one the catalogue default holds.
pub open spec fn last_enabled(saved: Seq<IdFlagView>, id: Seq<char>, dflt: bool) -> bool
    decreases saved.len(),
{
    if saved.len() == 0 {
        dflt
    } else if saved.last().id == id {
        saved.last().enabled
    } else {
        last_enabled(saved.drop_last(), id, dflt)
    }
}

/// The choice the first stored entry with the id gives, else the
/// default.
pub open spec fn first_enabled(saved: Seq<IdFlagView>, id: Seq<char>, dflt: bool) -> bool
    decreases saved.len(),
{
    if saved.len() == 0 {
        dflt
    } else if saved[0].id == id {
        saved[0].enabled
    } else {
        first_enabled(saved.skip(1), id, dflt)
    }
}

/// Look up the last stored repository choice for an id.
fn lookup_last_repo(saved: &Vec<ProvidedRepositoryState>, id: &str, dflt: bool) -> (r: bool)
    ensures
        r == last_enabled(saved.deep_view(), id@, dflt),
{
    let mut i: usize = saved.len();
    proof {
        assert(saved.deep_view().take(saved@.len() as int) =~= saved.deep_view());
    }
    while i > 0
        invariant
            i <= saved@.len(),
            saved@.len() == saved.deep_view().len(),
            last_enabled(saved.deep_view(), id@, dflt) == last_enabled(
                saved.deep_view().take(i as int),
                id@,
                dflt,
            ),
        decreases i,
    {
        proof {
            assert(saved.deep_view().take(i as int).last() == saved@[i as int - 1]@);
            assert(saved.deep_view().take(i as int).drop_last() =~= saved.deep_view().take(
                i as int - 1,
            ));
        }
        if str_eq(saved[i - 1].id.as_str(), id) {
            return saved[i - 1].enabled;
        }
        i = i - 1;
    }
    proof {
        assert(saved.deep_view().take(0) =~= Seq::<IdFlagView>::empty());
    }
    dflt
}

/// Look up the last stored theme choice for an id.
fn lookup_last_theme(saved: &Vec<ProvidedThemeState>, id: &str, dflt: bool) -> (r: bool)
    ensures
        r == last_enabled(saved.deep_view(), id@, dflt),
{
    let mut i: usize = saved.len();
    proof {
        assert(saved.deep_view().take(saved@.len() as int) =~= saved.deep_view());
    }
    while i > 0
        invariant
            i <= saved@.len(),
            saved@.len() == saved.deep_view().len(),
            last_enabled(saved.deep_view(), id@, dflt) == last_enabled(
                saved.deep_view().take(i as int),
                id@,
                dflt,
            ),
        decreases i,
    {
        proof {
            assert(saved.deep_view().take(i as int).last() == saved@[i as int - 1]@);
            assert(saved.deep_view().take(i as int).drop_last() =~= saved.deep_view().take(
                i as int - 1,
            ));
        }
        if str_eq(saved[i - 1].id.as_str(), id) {
            return saved[i - 1].enabled;
        }
        i = i - 1;
    }
    proof {
        assert(saved.deep_view().take(0) =~= Seq::<IdFlagView>::empty());
    }
    dflt
}

/// Look up the first stored repository choice for an id.
fn lookup_first_repo(saved: &Vec<ProvidedRepositoryState>, id: &str, dflt: bool) -> (r: bool)
    ensures
        r == first_enabled(saved.deep_view(), id@, dflt),
{
    let mut i: usize = 0;
    proof {
        assert(saved.deep_view().skip(0) =~= saved.deep_view());
    }
    while i < saved.len()
        invariant
            i <= saved@.len(),
            saved@.len() == saved.deep_view().len(),
            first_enabled(saved.deep_view(), id@, dflt) == first_enabled(
                saved.deep_view().skip(i as int),
                id@,
                dflt,
            ),
        decreases saved.len() - i,
    {
        proof {
            assert(saved.deep_view().skip(i as int)[0] == saved@[i as int]@);
            assert(saved.deep_view().skip(i as int).skip(1) =~= saved.deep_view().skip(
                i as int + 1,
            ));
        }
        if str_eq(saved[i].id.as_str(), id) {
            return saved[i].enabled;
        }
        i = i + 1;
    }
    proof {
        assert(saved.deep_view().skip(i as int) =~= Seq::<IdFlagView>::empty());
    }
    dflt
}

/// Look up the first stored theme choice for an id.
fn lookup_first_theme(saved: &Vec<ProvidedThemeState>, id: &str, dflt: bool) -> (r: bool)
    ensures
        r == first_enabled(saved.deep_view(), id@, dflt),
{
    let mut i: usize = 0;
    proof {
        assert(saved.deep_view().skip(0) =~= saved.deep_view());
    }
    while i < saved.len()
        invariant
            i <= saved@.len(),
            saved@.len() == saved.deep_view().len(),
            first_enabled(saved.deep_view(), id@, dflt) == first_enabled(
                saved.deep_view().skip(i as int),
                id@,
                dflt,
            ),
        decreases saved.len() - i,
    {
        proof {
            assert(saved.deep_view().skip(i as int)[0] == saved@[i as int]@);
            assert(saved.deep_view().skip(i as int).skip(1) =~= saved.deep_view().skip(
                i as int + 1,
            ));
        }
        if str_eq(saved[i].id.as_str(), id) {
            return saved[i].enabled;
        }
        i = i + 1;
    }
    proof {
        assert(saved.deep_view().skip(i as int) =~= Seq::<IdFlagView>::empty());
    }
    dflt
}

/// The displayed rows of a catalogue under stored choices: every
/// catalogue entry, with the last stored choice for its id in effect.
pub open spec fn spec_merged_rows(
    catalog: Seq<CatalogEntryView>,
    saved: Seq<IdFlagView>,
) -> Seq<CatalogRowView> {
    catalog.map_values(
        |c: CatalogEntryView|
            CatalogRowView {
                id: c.id,
                name: c.name,
                url: c.url,
                description: c.description,
                default_enabled: c.default_enabled,
                enabled: last_enabled(saved, c.id, c.default_enabled),
            },
    )
}

/// Merge the stored repository choices into the catalogue for display.
pub fn merge_provided_repositories(
    saved: &Vec<ProvidedRepositoryState>,
    catalog: &Vec<ProvidedRepository>,
) -> (r: Vec<ProvidedRepositoryView>)
    ensures
        r.deep_view() == spec_merged_rows(catalog.deep_view(), saved.deep_view()),
{
    let mut out: Vec<ProvidedRepositoryView> = Vec::new();
    let mut i: usize = 0;
    while i < catalog.len()
        invariant
            i <= catalog@.len(),
            catalog@.len() == catalog.deep_view().len(),
            out.deep_view() =~= spec_merged_rows(
                catalog.deep_view(),
                saved.deep_view(),
            ).take(i as int),
        decreases catalog.len() - i,
    {
        let c = &catalog[i];
        let enabled = lookup_last_repo(saved, c.id.as_str(), c.default_enabled);
        let ghost prev = out.deep_view();
        out.push(
            ProvidedRepositoryView {
                id: c.id.clone(),
                name: c.name.clone(),
                url: c.url.clone(),
                description: c.description.clone(),
                default_enabled: c.default_enabled,
                enabled,
            },
        );
        proof {
            let m = spec_merged_rows(catalog.deep_view(), saved.deep_view());
            assert(catalog@[i as int]@ == catalog.deep_view()[i as int]);
            assert(m[i as int] == (CatalogRowView {
                id: catalog.deep_view()[i as int].id,
                name: catalog.deep_view()[i as int].name,
                url: catalog.deep_view()[i as int].url,
                description: catalog.deep_view()[i as int].description,
                default_enabled: catalog.deep_view()[i as int].default_enabled,
                enabled: last_enabled(
                    saved.deep_view(),
                    catalog.deep_view()[i as int].id,
                    catalog.deep_view()[i as int].default_enabled,
                ),
            }));
            assert(out.deep_view() =~= prev.push(m[i as int]));
            assert(out.deep_view() =~= m.take(i as int + 1));
        }
        i = i + 1;
    }
    proof {
        assert(out.deep_view() =~= spec_merged_rows(catalog.deep_view(), saved.deep_view()));
    }
    out
}

/// Merge the stored theme choices into the catalogue for display.
pub fn merge_provided_themes(
    saved: &Vec<ProvidedThemeState>,
    catalog: &Vec<ProvidedTheme>,
) -> (r: Vec<ProvidedThemeView>)
    ensures
        r.deep_view() == spec_merged_rows(catalog.deep_view(), saved.deep_view()),
{
    let mut out: Vec<ProvidedThemeView> = Vec::new();
    let mut i: usize = 0;
    while i < catalog.len()
        invariant
            i <= catalog@.len(),
            catalog@.len() == catalog.deep_view().len(),
            out.deep_view() =~= spec_merged_rows(
                catalog.deep_view(),
                saved.deep_view(),
            ).take(i as int),
        decreases catalog.len() - i,
    {
        let c = &catalog[i];
        let enabled = lookup_last_theme(saved, c.id.as_str(), c.default_enabled);
        let ghost prev = out.deep_view();
        out.push(
            ProvidedThemeView {
                id: c.id.clone(),
                name: c.name.clone(),
                url: c.url.clone(),
                description: c.description.clone(),
                default_enabled: c.default_enabled,
                enabled,
            },
        );
        proof {
            let m = spec_merged_rows(catalog.deep_view(), saved.deep_view());
            assert(catalog@[i as int]@ == catalog.deep_view()[i as int]);
            assert(m[i as int] == (CatalogRowView {
                id: catalog.deep_view()[i as int].id,
                name: catalog.deep_view()[i as int].name,
                url: catalog.deep_view()[i as int].url,
                description: catalog.deep_view()[i as int].description,
                default_enabled: catalog.deep_view()[i as int].default_enabled,
                enabled: last_enabled(
                    saved.deep_view(),
                    catalog.deep_view()[i as int].id,
                    catalog.deep_view()[i as int].default_enabled,
                ),
            }));
            assert(out.deep_view() =~= prev.push(m[i as int]));
            assert(out.deep_view() =~= m.take(i as int + 1));
        }
        i = i + 1;
    }
    proof {
        assert(out.deep_view() =~= spec_merged_rows(catalog.deep_view(), saved.deep_view()));
    }
    out
}

/// The stored choices after reconciliation: one per catalogue entry,
/// with the first stored choice for its id in effect.
pub open spec fn reconciled_states(
    catalog: Seq<CatalogEntryView>,
    saved: Seq<IdFlagView>,
) -> Seq<IdFlagView> {
    catalog.map_values(
        |c: CatalogEntryView|
            IdFlagView { id: c.id, enabled: first_enabled(saved, c.id, c.default_enabled) },
    )
}

/// The stored options after reconciliation: a changed built-in source
/// address replaces a saved copy of the old one, a legacy default
/// directory migrates to the current one, and the per-entry choices
/// are rebuilt against the catalogues.
pub open spec fn spec_reconciled(
    o: UserOptionsView,
    repos: Seq<CatalogEntryView>,
    themes: Seq<CatalogEntryView>,
    current_dir: Seq<char>,
    legacy_dir: Seq<char>,
) -> UserOptionsView {
    let current_url = "https://github.com/Vendicated/Vencord.git"@;
    let saved_default = match o.vencord_repo_url_default {
        Some(u) => u,
        None => current_url,
    };
    let url_changed = saved_default != current_url;
    UserOptionsView {
        vencord_repo_url: if url_changed && o.vencord_repo_url == saved_default {
            current_url
        } else {
            o.vencord_repo_url
        },
        vencord_repo_dir: if o.vencord_repo_dir == legacy_dir {
            current_dir
        } else {
            o.vencord_repo_dir
        },
        vencord_repo_url_default: if url_changed {
            Some(current_url)
        } else {
            o.vencord_repo_url_default
        },
        user_repositories: o.user_repositories,
        user_themes: o.user_themes,
        provided_repositories: reconciled_states(repos, o.provided_repositories),
        provided_themes: reconciled_states(themes, o.provided_themes),
        close_discord_on_backup: o.close_discord_on_backup,
        selected_discord_clients: o.selected_discord_clients,
    }
}

/// Whether reconciliation changed anything that has to be saved.
pub open spec fn spec_reconcile_updated(
    o: UserOptionsView,
    repos: Seq<CatalogEntryView>,
    themes: Seq<CatalogEntryView>,
    legacy_dir: Seq<char>,
) -> bool {
    let current_url = "https://github.com/Vendicated/Vencord.git"@;
    let saved_default = match o.vencord_repo_url_default {
        Some(u) => u,
        None => current_url,
    };
    ||| saved_default != current_url
    ||| o.vencord_repo_dir == legacy_dir
    ||| reconciled_states(repos, o.provided_repositories) != o.provided_repositories
    ||| reconciled_states(themes, o.provided_themes) != o.provided_themes
}

/// Rebuild the stored repository choices against the catalogue.
fn reconcile_repo_states(
    saved: &Vec<ProvidedRepositoryState>,
    catalog: &Vec<ProvidedRepository>,
) -> (r: Vec<ProvidedRepositoryState>)
    ensures
        r.deep_view() == reconciled_states(catalog.deep_view(), saved.deep_view()),
{
    let mut out: Vec<ProvidedRepositoryState> = Vec::new();
    let mut i: usize = 0;
    while i < catalog.len()
        invariant
            i <= catalog@.len(),
            catalog@.len() == catalog.deep_view().len(),
            out.deep_view() =~= reconciled_states(
                catalog.deep_view(),
                saved.deep_view(),
            ).take(i as int),
        decreases catalog.len() - i,
    {
        let c = &catalog[i];
        let enabled = lookup_first_repo(saved, c.id.as_str(), c.default_enabled);
        let ghost prev = out.deep_view();
        out.push(ProvidedRepositoryState { id: c.id.clone(), enabled });
        proof {
            let m = reconciled_states(catalog.deep_view(), saved.deep_view());
            assert(catalog@[i as int]@ == catalog.deep_view()[i as int]);
            assert(m[i as int] == (IdFlagView {
                id: catalog.deep_view()[i as int].id,
                enabled: first_enabled(
                    saved.deep_view(),
                    catalog.deep_view()[i as int].id,
                    catalog.deep_view()[i as int].default_enabled,
                ),
            }));
            assert(out.deep_view() =~= prev.push(m[i as int]));
            assert(out.deep_view() =~= m.take(i as int + 1));
        }
        i = i + 1;
    }
    proof {
        assert(out.deep_view() =~= reconciled_states(catalog.deep_view(), saved.deep_view()));
    }
    out
}

/// Rebuild the stored theme choices against the catalogue.
fn reconcile_theme_states(
    saved: &Vec<ProvidedThemeState>,
    catalog: &Vec<ProvidedTheme>,
) -> (r: Vec<ProvidedThemeState>)
    ensures
        r.deep_view() == reconciled_states(catalog.deep_view(), saved.deep_view()),
{
    let mut out: Vec<ProvidedThemeState> = Vec::new();
    let mut i: usize = 0;
    while i < catalog.len()
        invariant
            i <= catalog@.len(),
            catalog@.len() == catalog.deep_view().len(),
            out.deep_view() =~= reconciled_states(
                catalog.deep_view(),
                saved.deep_view(),
            ).take(i as int),
        decreases catalog.len() - i,
    {
        let c = &catalog[i];
        let enabled = lookup_first_theme(saved, c.id.as_str(), c.default_enabled);
        let ghost prev = out.deep_view();
        out.push(ProvidedThemeState { id: c.id.clone(), enabled });
        proof {
            let m = reconciled_states(catalog.deep_view(), saved.deep_view());
            assert(catalog@[i as int]@ == catalog.deep_view()[i as int]);
            assert(m[i as int] == (IdFlagView {
                id: catalog.deep_view()[i as int].id,
                enabled: first_enabled(
                    saved.deep_view(),
                    catalog.deep_view()[i as int].id,
                    catalog.deep_view()[i as int].default_enabled,
                ),
            }));
            assert(out.deep_view() =~= prev.push(m[i as int]));
            assert(out.deep_view() =~= m.take(i as int + 1));
        }
        i = i + 1;
    }
    proof {
        assert(out.deep_view() =~= reconciled_states(catalog.deep_view(), saved.deep_view()));
    }
    out
}

/// Whether two stored repository choice lists hold the same choices.
fn repo_states_equal(a: &Vec<ProvidedRepositoryState>, b: &Vec<ProvidedRepositoryState>) -> (r:
    bool)
    ensures
        r == (a.deep_view() == b.deep_view()),
{
    if a.len() != b.len() {
        proof {
            assert(a.deep_view().len() != b.deep_view().len());
        }
        return false;
    }
    let mut i: usize = 0;
    while i < a.len()
        invariant
            i <= a@.len(),
            a@.len() == b@.len(),
            a.deep_view().len() == a@.len(),
            b.deep_view().len() == b@.len(),
            forall|j: int| 0 <= j < i ==> a.deep_view()[j] == b.deep_view()[j],
        decreases a.len() - i,
    {
        if !str_eq(a[i].id.as_str(), b[i].id.as_str()) || a[i].enabled != b[i].enabled {
            proof {
                assert(a.deep_view()[i as int] != b.deep_view()[i as int]);
            }
            return false;
        }
        proof {
            assert(a.deep_view()[i as int] == b.deep_view()[i as int]);
        }
        i = i + 1;
    }
    proof {
        assert(a.deep_view() =~= b.deep_view());
    }
    true
}

/// Whether two stored theme choice lists hold the same choices.
fn theme_states_equal(a: &Vec<ProvidedThemeState>, b: &Vec<ProvidedThemeState>) -> (r: bool)
    ensures
        r == (a.deep_view() == b.deep_view()),
{
    if a.len() != b.len() {
        proof {
            assert(a.deep_view().len() != b.deep_view().len());
        }
        return false;
    }
    let mut i: usize = 0;
    while i < a.len()
        invariant
            i <= a@.len(),
            a@.len() == b@.len(),
            a.deep_view().len() == a@.len(),
            b.deep_view().len() == b@.len(),
            forall|j: int| 0 <= j < i ==> a.deep_view()[j] == b.deep_view()[j],
        decreases a.len() - i,
    {
        if !str_eq(a[i].id.as_str(), b[i].id.as_str()) || a[i].enabled != b[i].enabled {
            proof {
                assert(a.deep_view()[i as int] != b.deep_view()[i as int]);
            }
            return false;
        }
        proof {
            assert(a.deep_view()[i as int] == b.deep_view()[i as int]);
        }
        i = i + 1;
    }
    proof {
        assert(a.deep_view() =~= b.deep_view());
    }
    true
}

/// Reconcile loaded options against the catalogues and built-in
/// defaults. The second result says whether anything changed and the
/// options have to be written back.
pub fn reconcile_options(
    options: UserOptions,
    repo_catalog: &Vec<ProvidedRepository>,
    theme_catalog: &Vec<ProvidedTheme>,
    current_default_dir: &str,
    legacy_default_dir: &str,
) -> (r: (UserOptions, bool))
    ensures
        r.0@ == spec_reconciled(
            options@,
            repo_catalog.deep_view(),
            theme_catalog.deep_view(),
            current_default_dir@,
            legacy_default_dir@,
        ),
        r.1 == spec_reconcile_updated(
            options@,
            repo_catalog.deep_view(),
            theme_catalog.deep_view(),
            legacy_default_dir@,
        ),
{
    let mut o = options;
    let mut updated = false;
    let current_url = default_vencord_repo_url();
    let url_changed = match &o.vencord_repo_url_default {
        Some(u) => !str_eq(u.as_str(), current_url),
        None => false,
    };
    if url_changed {
        let url_was_default = match &o.vencord_repo_url_default {
            Some(u) => str_eq(o.vencord_repo_url.as_str(), u.as_str()),
            None => false,
        };
        if url_was_default {
            o.vencord_repo_url = String::from_str(current_url);
        }
        o.vencord_repo_url_default = Some(String::from_str(current_url));
        updated = true;
    }
    if str_eq(o.vencord_repo_dir.as_str(), legacy_default_dir) {
        o.vencord_repo_dir = String::from_str(current_default_dir);
        updated = true;
    }
    let new_repos = reconcile_repo_states(&o.provided_repositories, repo_catalog);
    if !repo_states_equal(&new_repos, &o.provided_repositories) {
        updated = true;
    }
    o.provided_repositories = new_repos;
    let new_themes = reconcile_theme_states(&o.provided_themes, theme_catalog);
    if !theme_states_equal(&new_themes, &o.provided_themes) {
        updated = true;
    }
    o.provided_themes = new_themes;
    (o, updated)
}

/// The displayed form of the options, with the catalogues merged in.
pub fn to_response(
    options: UserOptions,
    repo_catalog: &Vec<ProvidedRepository>,
    theme_catalog: &Vec<ProvidedTheme>,
) -> (r: OptionsResponse)
    ensures
        r@.vencord_repo_url == options@.vencord_repo_url,
        r@.vencord_repo_dir == options@.vencord_repo_dir,
        r@.user_repositories == options@.user_repositories,
        r@.user_themes == options@.user_themes,
        r@.provided_repositories == spec_merged_rows(
            repo_catalog.deep_view(),
            options@.provided_repositories,
        ),
        r@.provided_themes == spec_merged_rows(
            theme_catalog.deep_view(),
            options@.provided_themes,
        ),
        r@.close_discord_on_backup == options@.close_discord_on_backup,
        r@.selected_discord_clients == options@.selected_discord_clients,
{
    let provided_repositories = merge_provided_repositories(
        &options.provided_repositories,
        repo_catalog,
    );
    let provided_themes = merge_provided_themes(&options.provided_themes, theme_catalog);
    OptionsResponse {
        vencord_repo_url: options.vencord_repo_url,
        vencord_repo_dir: options.vencord_repo_dir,
        user_repositories: options.user_repositories,
        user_themes: options.user_themes,
        provided_repositories,
        provided_themes,
        close_discord_on_backup: options.close_discord_on_backup,
        selected_discord_clients: options.selected_discord_clients,
    }
}

/// Whether the catalogue holds an entry with the id.
pub open spec fn catalog_has_id(catalog: Seq<CatalogEntryView>, id: Seq<char>) -> bool {
    exists|i: int| 0 <= i < catalog.len() && (#[trigger] catalog[i]).id == id
}

/// The stored choices a displayed list induces: rows whose id the
/// catalogue does not know are dropped.
pub open spec fn spec_kept_states(
    rows: Seq<CatalogRowView>,
    catalog: Seq<CatalogEntryView>,
) -> Seq<IdFlagView>
    decreases rows.len(),
{
    if rows.len() == 0 {
        Seq::empty()
    } else {
        let rest = spec_kept_states(rows.skip(1), catalog);
        if catalog_has_id(catalog, rows[0].id) {
            seq![IdFlagView { id: rows[0].id, enabled: rows[0].enabled }] + rest
        } else {
            rest
        }
    }
}

/// Whether the repository catalogue holds the id.
fn repo_catalog_has_id(catalog: &Vec<ProvidedRepository>, id: &str) -> (r: bool)
    ensures
        r == catalog_has_id(catalog.deep_view(), id@),
{
    let mut i: usize = 0;
    while i < catalog.len()
        invariant
            i <= catalog@.len(),
            catalog@.len() == catalog.deep_view().len(),
            forall|j: int| 0 <= j < i ==> (#[trigger] catalog.deep_view()[j]).id != id@,
        decreases catalog.len() - i,
    {
        if str_eq(catalog[i].id.as_str(), id) {
            proof {
                assert((catalog.deep_view()[i as int]).id == id@);
            }
            return true;
        }
        i = i + 1;
    }
    false
}

/// Whether the theme catalogue holds the id.
fn theme_catalog_has_id(catalog: &Vec<ProvidedTheme>, id: &str) -> (r: bool)
    ensures
        r == catalog_has_id(catalog.deep_view(), id@),
{
    let mut i: usize = 0;
    while i < catalog.len()
        invariant
            i <= catalog@.len(),
            catalog@.len() == catalog.deep_view().len(),
            forall|j: int| 0 <= j < i ==> (#[trigger] catalog.deep_view()[j]).id != id@,
        decreases catalog.len() - i,
    {
        if str_eq(catalog[i].id.as_str(), id) {
            proof {
                assert((catalog.deep_view()[i as int]).id == id@);
            }
            return true;
        }
        i = i + 1;
    }
    false
}

/// The stored form of edited options: unknown per-entry choices are
/// dropped, and the current built-in source address is recorded as
/// the default it was edited against.
pub fn to_storage(
    options: OptionsResponse,
    repo_catalog: &Vec<ProvidedRepository>,
    theme_catalog: &Vec<ProvidedTheme>,
) -> (r: UserOptions)
    ensures
        r@.vencord_repo_url == options@.vencord_repo_url,
        r@.vencord_repo_dir == options@.vencord_repo_dir,
        r@.vencord_repo_url_default == Some("https://github.com/Vendicated/Vencord.git"@),
        r@.user_repositories == options@.user_repositories,
        r@.user_themes == options@.user_themes,
        r@.provided_repositories == spec_kept_states(
            options@.provided_repositories,
            repo_catalog.deep_view(),
        ),
        r@.provided_themes == spec_kept_states(
            options@.provided_themes,
            theme_catalog.deep_view(),
        ),
        r@.close_discord_on_backup == options@.close_discord_on_backup,
        r@.selected_discord_clients == options@.selected_discord_clients,
{
    let mut provided_repositories: Vec<ProvidedRepositoryState> = Vec::new();
    let rows = &options.provided_repositories;
    let mut i: usize = 0;
    proof {
        assert(rows.deep_view().skip(0) =~= rows.deep_view());
    }
    while i < rows.len()
        invariant
            i <= rows@.len(),
            rows@.len() == rows.deep_view().len(),
            spec_kept_states(rows.deep_view(), repo_catalog.deep_view())
                == provided_repositories.deep_view() + spec_kept_states(
                rows.deep_view().skip(i as int),
                repo_catalog.deep_view(),
            ),
        decreases rows.len() - i,
    {
        proof {
            assert(rows.deep_view().skip(i as int)[0] == rows@[i as int]@);
            assert(rows.deep_view().skip(i as int).skip(1) =~= rows.deep_view().skip(
                i as int + 1,
            ));
        }
        let ghost prev = provided_repositories.deep_view();
        if repo_catalog_has_id(repo_catalog, rows[i].id.as_str()) {
            provided_repositories.push(
                ProvidedRepositoryState { id: rows[i].id.clone(), enabled: rows[i].enabled },
            );
            proof {
                assert(provided_repositories.deep_view() =~= prev.push(
                    IdFlagView { id: rows@[i as int]@.id, enabled: rows@[i as int]@.enabled },
                ));
                assert(provided_repositories.deep_view() + spec_kept_states(
                    rows.deep_view().skip(i as int + 1),
                    repo_catalog.deep_view(),
                ) =~= prev + (seq![
                    IdFlagView { id: rows@[i as int]@.id, enabled: rows@[i as int]@.enabled },
                ] + spec_kept_states(
                    rows.deep_view().skip(i as int + 1),
                    repo_catalog.deep_view(),
                )));
            }
        }
        i = i + 1;
    }
    proof {
        assert(rows.deep_view().skip(i as int) =~= Seq::<CatalogRowView>::empty());
    }
    let mut provided_themes: Vec<ProvidedThemeState> = Vec::new();
    let theme_rows = &options.provided_themes;
    let mut k: usize = 0;
    proof {
        assert(theme_rows.deep_view().skip(0) =~= theme_rows.deep_view());
    }
    while k < theme_rows.len()
        invariant
            k <= theme_rows@.len(),
            theme_rows@.len() == theme_rows.deep_view().len(),
            spec_kept_states(theme_rows.deep_view(), theme_catalog.deep_view())
                == provided_themes.deep_view() + spec_kept_states(
                theme_rows.deep_view().skip(k as int),
                theme_catalog.deep_view(),
            ),
        decreases theme_rows.len() - k,
    {
        proof {
            assert(theme_rows.deep_view().skip(k as int)[0] == theme_rows@[k as int]@);
            assert(theme_rows.deep_view().skip(k as int).skip(1) =~= theme_rows.deep_view().skip(
                k as int + 1,
            ));
        }
        let ghost prev = provided_themes.deep_view();
        if theme_catalog_has_id(theme_catalog, theme_rows[k].id.as_str()) {
            provided_themes.push(
                ProvidedThemeState {
                    id: theme_rows[k].id.clone(),
                    enabled: theme_rows[k].enabled,
                },
            );
            proof {
                assert(provided_themes.deep_view() =~= prev.push(
                    IdFlagView {
                        id: theme_rows@[k as int]@.id,
                        enabled: theme_rows@[k as int]@.enabled,
                    },
                ));
                assert(provided_themes.deep_view() + spec_kept_states(
                    theme_rows.deep_view().skip(k as int + 1),
                    theme_catalog.deep_view(),
                ) =~= prev + (seq![
                    IdFlagView {
                        id: theme_rows@[k as int]@.id,
                        enabled: theme_rows@[k as int]@.enabled,
                    },
                ] + spec_kept_states(
                    theme_rows.deep_view().skip(k as int + 1),
                    theme_catalog.deep_view(),
                )));
            }
        }
        k = k + 1;
    }
    proof {
        assert(theme_rows.deep_view().skip(k as int) =~= Seq::<CatalogRowView>::empty());
    }
    UserOptions {
        vencord_repo_url: options.vencord_repo_url,
        vencord_repo_dir: options.vencord_repo_dir,
        vencord_repo_url_default: Some(String::from_str(default_vencord_repo_url())),
        user_repositories: options.user_repositories,
        user_themes: options.user_themes,
        provided_repositories,
        provided_themes,
        close_discord_on_backup: options.close_discord_on_backup,
        selected_discord_clients: options.selected_discord_clients,
    }
}

/// The addresses of the catalogue entries the stored choices enable.
pub open spec fn spec_enabled_urls(
    catalog: Seq<CatalogEntryView>,
    saved: Seq<IdFlagView>,
) -> Seq<Seq<char>>
    decreases catalog.len(),
{
    if catalog.len() == 0 {
        Seq::empty()
    } else {
        let rest = spec_enabled_urls(catalog.skip(1), saved);
        if last_enabled(saved, catalog[0].id, catalog[0].default_enabled) {
            seq![catalog[0].url] + rest
        } else {
            rest
        }
    }
}

/// The entries of a list that are not blank.
pub open spec fn spec_nonblank(urls: Seq<Seq<char>>) -> Seq<Seq<char>>
    decreases urls.len(),
{
    if urls.len() == 0 {
        Seq::empty()
    } else {
        let rest = spec_nonblank(urls.skip(1));
        if spec_trim(urls[0]).len() > 0 {
            seq![urls[0]] + rest
        } else {
            rest
        }
    }
}

/// The plugin repositories a run works from: the enabled catalogue
/// entries' addresses, followed by the user's own entries that are
/// not blank, in order.
pub fn resolve_plugin_repositories(
    options: &UserOptions,
    catalog: &Vec<ProvidedRepository>,
) -> (r: Vec<String>)
    ensures
        r.deep_view() == spec_enabled_urls(
            catalog.deep_view(),
            options@.provided_repositories,
        ) + spec_nonblank(options@.user_repositories),
{
    let mut out: Vec<String> = Vec::new();
    let ghost saved = options.provided_repositories.deep_view();
    let mut i: usize = 0;
    proof {
        assert(catalog.deep_view().skip(0) =~= catalog.deep_view());
    }
    while i < catalog.len()
        invariant
            i <= catalog@.len(),
            catalog@.len() == catalog.deep_view().len(),
            saved == options.provided_repositories.deep_view(),
            spec_enabled_urls(catalog.deep_view(), saved) == out.deep_view()
                + spec_enabled_urls(catalog.deep_view().skip(i as int), saved),
        decreases catalog.len() - i,
    {
        proof {
            assert(catalog.deep_view().skip(i as int)[0] == catalog@[i as int]@);
            assert(catalog.deep_view().skip(i as int).skip(1) =~= catalog.deep_view().skip(
                i as int + 1,
            ));
        }
        let c = &catalog[i];
        let ghost prev = out.deep_view();
        if lookup_last_repo(&options.provided_repositories, c.id.as_str(), c.default_enabled) {
            out.push(c.url.clone());
            proof {
                assert(out.deep_view() =~= prev.push(catalog@[i as int]@.url));
                assert(out.deep_view() + spec_enabled_urls(
                    catalog.deep_view().skip(i as int + 1),
                    saved,
                ) =~= prev + (seq![catalog.deep_view()[i as int].url] + spec_enabled_urls(
                    catalog.deep_view().skip(i as int + 1),
                    saved,
                )));
            }
        }
        i = i + 1;
    }
    proof {
        assert(catalog.deep_view().skip(i as int) =~= Seq::<CatalogEntryView>::empty());
    }
    let ghost base = out.deep_view();
    proof {
        assert(base =~= spec_enabled_urls(catalog.deep_view(), saved));
        assert(options.user_repositories.deep_view().skip(0)
            =~= options.user_repositories.deep_view());
    }
    let user = &options.user_repositories;
    let mut k: usize = 0;
    while k < user.len()
        invariant
            k <= user@.len(),
            user@.len() == user.deep_view().len(),
            base == spec_enabled_urls(catalog.deep_view(), saved),
            saved == options.provided_repositories.deep_view(),
            user.deep_view() == options@.user_repositories,
            out.deep_view() + spec_nonblank(user.deep_view().skip(k as int)) == base
                + spec_nonblank(user.deep_view()),
        decreases user.len() - k,
    {
        proof {
            assert(user.deep_view().skip(k as int)[0] == user@[k as int]@);
            assert(user.deep_view().skip(k as int).skip(1) =~= user.deep_view().skip(
                k as int + 1,
            ));
        }
        let ghost prev = out.deep_view();
        let trimmed = trim_ascii(user[k].as_str());
        if trimmed.unicode_len() > 0 {
            out.push(user[k].clone());
            proof {
                assert(out.deep_view() =~= prev.push(user@[k as int]@));
                assert(out.deep_view() + spec_nonblank(user.deep_view().skip(k as int + 1))
                    =~= prev + (seq![user.deep_view()[k as int]] + spec_nonblank(
                    user.deep_view().skip(k as int + 1),
                )));
            }
        }
        k = k + 1;
    }
    proof {
        assert(user.deep_view().skip(k as int) =~= Seq::<Seq<char>>::empty());
        assert(spec_nonblank(Seq::<Seq<char>>::empty()) =~= Seq::<Seq<char>>::empty());
        assert(out.deep_view() + Seq::<Seq<char>>::empty() =~= out.deep_view());
    }
    out
}

/// The enabled catalogue themes as download sources.
pub open spec fn spec_enabled_theme_sources(
    catalog: Seq<CatalogEntryView>,
    saved: Seq<IdFlagView>,
) -> Seq<ThemeSourceView>
    decreases catalog.len(),
{
    if catalog.len() == 0 {
        Seq::empty()
    } else {
        let rest = spec_enabled_theme_sources(catalog.skip(1), saved);
        if last_enabled(saved, catalog[0].id, catalog[0].default_enabled) {
            seq![
                ThemeSourceView { id: catalog[0].id, name: catalog[0].name, url: catalog[0].url },
            ] + rest
        } else {
            rest
        }
    }
}

/// The display name of a user theme address: its last segment, or the
/// whole address when that segment is empty.
pub open spec fn user_theme_name(t: Seq<char>) -> Seq<char> {
    let seg = suffix_after_last(t, '/');
    if seg.len() > 0 {
        seg
    } else {
        t
    }
}

/// The user's own theme entries as download sources: blanks are
/// dropped, and each kept entry is numbered by its position behind
/// the catalogue part.
pub open spec fn spec_user_theme_sources(urls: Seq<Seq<char>>, next_id: int) -> Seq<
    ThemeSourceView,
>
    decreases urls.len(),
{
    if urls.len() == 0 {
        Seq::empty()
    } else {
        let t = spec_trim(urls[0]);
        let rest = spec_user_theme_sources(urls.skip(1), next_id + 1);
        if t.len() > 0 {
            seq![
                ThemeSourceView {
                    id: "user-theme-"@ + dec_rep(next_id as nat),
                    name: user_theme_name(t),
                    url: t,
                },
            ] + rest
        } else {
            rest
        }
    }
}

/// The themes a run downloads: the enabled catalogue entries followed
/// by the user's own entries.
pub fn resolve_themes(options: &UserOptions, catalog: &Vec<ProvidedTheme>) -> (r: Vec<
    ProvidedThemeInfo,
>)
    ensures
        r.deep_view() == spec_enabled_theme_sources(
            catalog.deep_view(),
            options@.provided_themes,
        ) + spec_user_theme_sources(
            options@.user_themes,
            spec_enabled_theme_sources(catalog.deep_view(), options@.provided_themes).len()
                as int,
        ),
{
    let mut out: Vec<ProvidedThemeInfo> = Vec::new();
    let ghost saved = options.provided_themes.deep_view();
    let mut i: usize = 0;
    proof {
        assert(catalog.deep_view().skip(0) =~= catalog.deep_view());
    }
    while i < catalog.len()
        invariant
            i <= catalog@.len(),
            catalog@.len() == catalog.deep_view().len(),
            saved == options.provided_themes.deep_view(),
            spec_enabled_theme_sources(catalog.deep_view(), saved) == out.deep_view()
                + spec_enabled_theme_sources(catalog.deep_view().skip(i as int), saved),
        decreases catalog.len() - i,
    {
        proof {
            assert(catalog.deep_view().skip(i as int)[0] == catalog@[i as int]@);
            assert(catalog.deep_view().skip(i as int).skip(1) =~= catalog.deep_view().skip(
                i as int + 1,
            ));
        }
        let c = &catalog[i];
        let ghost prev = out.deep_view();
        if lookup_last_theme(&options.provided_themes, c.id.as_str(), c.default_enabled) {
            out.push(
                ProvidedThemeInfo { id: c.id.clone(), name: c.name.clone(), url: c.url.clone() },
            );
            proof {
                assert(out.deep_view() =~= prev.push(
                    ThemeSourceView {
                        id: catalog.deep_view()[i as int].id,
                        name: catalog.deep_view()[i as int].name,
                        url: catalog.deep_view()[i as int].url,
                    },
                ));
                assert(out.deep_view() + spec_enabled_theme_sources(
                    catalog.deep_view().skip(i as int + 1),
                    saved,
                ) =~= prev + (seq![
                    ThemeSourceView {
                        id: catalog.deep_view()[i as int].id,
                        name: catalog.deep_view()[i as int].name,
                        url: catalog.deep_view()[i as int].url,
                    },
                ] + spec_enabled_theme_sources(
                    catalog.deep_view().skip(i as int + 1),
                    saved,
                )));
            }
        }
        i = i + 1;
    }
    proof {
        assert(catalog.deep_view().skip(i as int) =~= Seq::<CatalogEntryView>::empty());
    }
    let base = out.len();
    let ghost catalog_part = out.deep_view();
    proof {
        assert(catalog_part =~= spec_enabled_theme_sources(catalog.deep_view(), saved));
        assert(options.user_themes.deep_view().skip(0) =~= options.user_themes.deep_view());
    }
    let user = &options.user_themes;
    let mut k: usize = 0;
    while k < user.len()
        invariant
            k <= user@.len(),
            user@.len() == user.deep_view().len(),
            base == catalog_part.len(),
            catalog_part == spec_enabled_theme_sources(catalog.deep_view(), saved),
            saved == options.provided_themes.deep_view(),
            user.deep_view() == options@.user_themes,
            out.deep_view() + spec_user_theme_sources(
                user.deep_view().skip(k as int),
                base + k as int,
            ) == catalog_part + spec_user_theme_sources(user.deep_view(), base as int),
        decreases user.len() - k,
    {
        proof {
            assert(user.deep_view().skip(k as int)[0] == user@[k as int]@);
            assert(user.deep_view().skip(k as int).skip(1) =~= user.deep_view().skip(
                k as int + 1,
            ));
        }
        let ghost prev = out.deep_view();
        let trimmed = trim_ascii(user[k].as_str());
        if trimmed.unicode_len() > 0 {
            let number = u128_to_string((base as u128) + (k as u128));
            let id = String::from_str("user-theme-").concat(number.as_str());
            let name = user_theme_name_exec(trimmed.as_str());
            let entry = ProvidedThemeInfo { id, name, url: trimmed };
            proof {
                assert(entry@ == (ThemeSourceView {
                    id: "user-theme-"@ + dec_rep((base + k as int) as nat),
                    name: user_theme_name(spec_trim(user.deep_view()[k as int])),
                    url: spec_trim(user.deep_view()[k as int]),
                }));
            }
            out.push(entry);
            proof {
                assert(out.deep_view() =~= prev.push(entry@));
                assert(out.deep_view() + spec_user_theme_sources(
                    user.deep_view().skip(k as int + 1),
                    base + k as int + 1,
                ) =~= prev + (seq![entry@] + spec_user_theme_sources(
                    user.deep_view().skip(k as int + 1),
                    base + k as int + 1,
                )));
            }
        }
        k = k + 1;
    }
    proof {
        assert(user.deep_view().skip(k as int) =~= Seq::<Seq<char>>::empty());
        assert(out.deep_view() + Seq::<ThemeSourceView>::empty() =~= out.deep_view());
    }
    out
}

/// Compute the display name of a trimmed user theme address.
fn user_theme_name_exec(t: &str) -> (r: String)
    ensures
        r@ == user_theme_name(t@),
{
    let seg = crate::text::segment_after_last(t, '/');
    if seg.unicode_len() > 0 {
        seg
    } else {
        t.to_owned()
    }
}

/// The stored choices a fresh catalogue gives: every entry under its
/// default.
pub open spec fn default_states(catalog: Seq<CatalogEntryView>) -> Seq<IdFlagView> {
    catalog.map_values(|c: CatalogEntryView| IdFlagView { id: c.id, enabled: c.default_enabled })
}

/// The default installation directory of the source checkout: the
/// user's home directory with one fixed component below it.
pub fn default_repo_base_dir(home_dir: &str, windows: bool) -> (r: String)
    ensures
        r@ == home_dir@ + (if windows {
            "\\"@
        } else {
            "/"@
        }) + "Vencord"@,
{
    let sep = if windows {
        "\\"
    } else {
        "/"
    };
    home_dir.to_owned().concat(sep).concat("Vencord")
}

/// The installation directory an earlier release used, below the
/// user's documents folder; options still pointing there migrate.
pub fn legacy_repo_base_dir(home_dir: &str, windows: bool) -> (r: String)
    ensures
        r@ == home_dir@ + (if windows {
            "\\"@
        } else {
            "/"@
        }) + "Documents"@ + (if windows {
            "\\"@
        } else {
            "/"@
        }) + "Vencord"@,
{
    let sep = if windows {
        "\\"
    } else {
        "/"
    };
    home_dir.to_owned().concat(sep).concat("Documents").concat(sep).concat("Vencord")
}

/// Fresh options: the built-in source address, the given checkout
/// directory, the catalogue defaults, closing on backup switched on
/// and the stable build selected.
pub fn default_user_options(
    repo_catalog: &Vec<ProvidedRepository>,
    theme_catalog: &Vec<ProvidedTheme>,
    repo_dir: String,
) -> (r: UserOptions)
    ensures
        r@.vencord_repo_url == "https://github.com/Vendicated/Vencord.git"@,
        r@.vencord_repo_url_default == Some("https://github.com/Vendicated/Vencord.git"@),
        r@.vencord_repo_dir == repo_dir@,
        r@.user_repositories == Seq::<Seq<char>>::empty(),
        r@.user_themes == Seq::<Seq<char>>::empty(),
        r@.provided_repositories == default_states(repo_catalog.deep_view()),
        r@.provided_themes == default_states(theme_catalog.deep_view()),
        r@.close_discord_on_backup,
        r@.selected_discord_clients =~= seq!["stable"@],
{
    let mut provided_repositories: Vec<ProvidedRepositoryState> = Vec::new();
    let mut i: usize = 0;
    while i < repo_catalog.len()
        invariant
            i <= repo_catalog@.len(),
            repo_catalog@.len() == repo_catalog.deep_view().len(),
            provided_repositories.deep_view() =~= default_states(
                repo_catalog.deep_view(),
            ).take(i as int),
        decreases repo_catalog.len() - i,
    {
        let ghost prev = provided_repositories.deep_view();
        provided_repositories.push(
            ProvidedRepositoryState {
                id: repo_catalog[i].id.clone(),
                enabled: repo_catalog[i].default_enabled,
            },
        );
        proof {
            assert(repo_catalog@[i as int]@ == repo_catalog.deep_view()[i as int]);
            assert(default_states(repo_catalog.deep_view())[i as int] == (IdFlagView {
                id: repo_catalog.deep_view()[i as int].id,
                enabled: repo_catalog.deep_view()[i as int].default_enabled,
            }));
            assert(provided_repositories.deep_view() =~= prev.push(
                default_states(repo_catalog.deep_view())[i as int],
            ));
            assert(provided_repositories.deep_view() =~= default_states(
                repo_catalog.deep_view(),
            ).take(i as int + 1));
        }
        i = i + 1;
    }
    proof {
        assert(provided_repositories.deep_view() =~= default_states(repo_catalog.deep_view()));
    }
    let mut provided_themes: Vec<ProvidedThemeState> = Vec::new();
    let mut k: usize = 0;
    while k < theme_catalog.len()
        invariant
            k <= theme_catalog@.len(),
            theme_catalog@.len() == theme_catalog.deep_view().len(),
            provided_themes.deep_view() =~= default_states(
                theme_catalog.deep_view(),
            ).take(k as int),
        decreases theme_catalog.len() - k,
    {
        let ghost prev = provided_themes.deep_view();
        provided_themes.push(
            ProvidedThemeState {
                id: theme_catalog[k].id.clone(),
                enabled: theme_catalog[k].default_enabled,
            },
        );
        proof {
            assert(theme_catalog@[k as int]@ == theme_catalog.deep_view()[k as int]);
            assert(default_states(theme_catalog.deep_view())[k as int] == (IdFlagView {
                id: theme_catalog.deep_view()[k as int].id,
                enabled: theme_catalog.deep_view()[k as int].default_enabled,
            }));
            assert(provided_themes.deep_view() =~= prev.push(
                default_states(theme_catalog.deep_view())[k as int],
            ));
            assert(provided_themes.deep_view() =~= default_states(
                theme_catalog.deep_view(),
            ).take(k as int + 1));
        }
        k = k + 1;
    }
    proof {
        assert(provided_themes.deep_view() =~= default_states(theme_catalog.deep_view()));
    }
    let r = UserOptions {
        vencord_repo_url: String::from_str(default_vencord_repo_url()),
        vencord_repo_dir: repo_dir,
        vencord_repo_url_default: Some(String::from_str(default_vencord_repo_url())),
        user_repositories: Vec::new(),
        user_themes: Vec::new(),
        provided_repositories,
        provided_themes,
        close_discord_on_backup: default_true(),
        selected_discord_clients: default_selected_discord_clients(),
    };
    proof {
        assert(r@.user_repositories =~= Seq::<Seq<char>>::empty());
        assert(r@.user_themes =~= Seq::<Seq<char>>::empty());
    }
    r
}

} // verus!

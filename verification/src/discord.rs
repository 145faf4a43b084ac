//! Host-application installations: the known install locations and
//! the resolution of the user's selection to concrete paths.
//!
//! Probing the filesystem for the candidate directories is the
//! surrounding application's job; it reports for each whether the
//! directory is present.

use vstd::prelude::*;

use crate::text::{join_comma, spec_join_comma, str_eq};

verus! {

/// One detected installation of the host application.
pub struct DiscordInstall {
    pub id: String,
    pub name: String,
    pub path: String,
}

/// The mathematical value of a detected installation.
pub struct InstallView {
    pub id: Seq<char>,
    pub name: Seq<char>,
    pub path: Seq<char>,
}

impl View for DiscordInstall {
    type V = InstallView;

    open spec fn view(&self) -> InstallView {
        InstallView { id: self.id@, name: self.name@, path: self.path@ }
    }
}

impl DeepView for DiscordInstall {
    type V = InstallView;

    open spec fn deep_view(&self) -> InstallView {
        self.view()
    }
}

/// A candidate install location, with whether its directory is
/// present on disk.
pub struct InstallCandidate {
    pub id: String,
    pub name: String,
    pub path: String,
    pub present: bool,
}

/// The mathematical value of a candidate.
pub struct CandidateView {
    pub id: Seq<char>,
    pub name: Seq<char>,
    pub path: Seq<char>,
    pub present: bool,
}

impl View for InstallCandidate {
    type V = CandidateView;

    open spec fn view(&self) -> CandidateView {
        CandidateView { id: self.id@, name: self.name@, path: self.path@, present: self.present }
    }
}

impl DeepView for InstallCandidate {
    type V = CandidateView;

    open spec fn deep_view(&self) -> CandidateView {
        self.view()
    }
}

/// The candidates that are present, as installations.
pub open spec fn spec_present_installs(candidates: Seq<CandidateView>) -> Seq<InstallView>
    decreases candidates.len(),
{
    if candidates.len() == 0 {
        Seq::empty()
    } else {
        let rest = spec_present_installs(candidates.skip(1));
        if candidates[0].present {
            seq![
                InstallView {
                    id: candidates[0].id,
                    name: candidates[0].name,
                    path: candidates[0].path,
                },
            ] + rest
        } else {
            rest
        }
    }
}

/// Append the candidates whose directory is present to the list of
/// detected installations.
pub fn add_candidates(installs: &mut Vec<DiscordInstall>, candidates: Vec<InstallCandidate>)
    ensures
        final(installs).deep_view() == old(installs).deep_view() + spec_present_installs(
            candidates.deep_view(),
        ),
{
    let ghost base = installs.deep_view();
    let mut rest = candidates;
    let ghost all = rest.deep_view();
    let mut i: usize = 0;
    proof {
        assert(all.skip(0) =~= all);
        assert(base + Seq::<InstallView>::empty() =~= base);
    }
    while i < rest.len()
        invariant
            i <= rest@.len(),
            rest@.len() == all.len(),
            rest.deep_view() == all,
            old(installs).deep_view() == base,
            installs.deep_view() + spec_present_installs(all.skip(i as int)) == base
                + spec_present_installs(all),
        decreases rest.len() - i,
    {
        proof {
            assert(all.skip(i as int)[0] == rest@[i as int]@);
            assert(all.skip(i as int).skip(1) =~= all.skip(i as int + 1));
        }
        let ghost prev = installs.deep_view();
        if rest[i].present {
            let c = &rest[i];
            installs.push(
                DiscordInstall { id: c.id.clone(), name: c.name.clone(), path: c.path.clone() },
            );
            proof {
                assert(installs.deep_view() =~= prev.push(
                    InstallView {
                        id: all[i as int].id,
                        name: all[i as int].name,
                        path: all[i as int].path,
                    },
                ));
                assert(installs.deep_view() + spec_present_installs(all.skip(i as int + 1))
                    =~= prev + (seq![
                    InstallView {
                        id: all[i as int].id,
                        name: all[i as int].name,
                        path: all[i as int].path,
                    },
                ] + spec_present_installs(all.skip(i as int + 1))));
            }
        }
        i = i + 1;
    }
    proof {
        assert(all.skip(i as int) =~= Seq::<CandidateView>::empty());
        assert(installs.deep_view() + Seq::<InstallView>::empty() =~= installs.deep_view());
    }
}

/// Whether an installation with the id is known.
pub open spec fn spec_has_install(installs: Seq<InstallView>, id: Seq<char>) -> bool {
    exists|i: int| 0 <= i < installs.len() && (#[trigger] installs[i]).id == id
}

/// The path of the first installation with the id.
pub open spec fn spec_install_path(installs: Seq<InstallView>, id: Seq<char>) -> Seq<char>
    decreases installs.len(),
{
    if installs.len() == 0 {
        Seq::empty()
    } else if installs[0].id == id {
        installs[0].path
    } else {
        spec_install_path(installs.skip(1), id)
    }
}

/// The paths of the selected ids that are installed, in selection
/// order.
pub open spec fn spec_selected_paths(
    installs: Seq<InstallView>,
    selected: Seq<Seq<char>>,
) -> Seq<Seq<char>>
    decreases selected.len(),
{
    if selected.len() == 0 {
        Seq::empty()
    } else {
        let rest = spec_selected_paths(installs, selected.skip(1));
        if spec_has_install(installs, selected[0]) {
            seq![spec_install_path(installs, selected[0])] + rest
        } else {
            rest
        }
    }
}

/// The selected ids that are not installed, in selection order.
pub open spec fn spec_missing_ids(
    installs: Seq<InstallView>,
    selected: Seq<Seq<char>>,
) -> Seq<Seq<char>>
    decreases selected.len(),
{
    if selected.len() == 0 {
        Seq::empty()
    } else {
        let rest = spec_missing_ids(installs, selected.skip(1));
        if spec_has_install(installs, selected[0]) {
            rest
        } else {
            seq![selected[0]] + rest
        }
    }
}

/// Find the first installation with the id.
fn find_install(installs: &Vec<DiscordInstall>, id: &str) -> (r: Option<usize>)
    ensures
        r is Some ==> spec_has_install(installs.deep_view(), id@) && r->0 < installs@.len()
            && installs.deep_view()[r->0 as int].path == spec_install_path(
            installs.deep_view(),
            id@,
        ),
        r is None ==> !spec_has_install(installs.deep_view(), id@),
{
    let mut i: usize = 0;
    proof {
        assert(installs.deep_view().skip(0) =~= installs.deep_view());
    }
    while i < installs.len()
        invariant
            i <= installs@.len(),
            installs@.len() == installs.deep_view().len(),
            forall|j: int| 0 <= j < i ==> (#[trigger] installs.deep_view()[j]).id != id@,
            spec_install_path(installs.deep_view(), id@) == spec_install_path(
                installs.deep_view().skip(i as int),
                id@,
            ),
        decreases installs.len() - i,
    {
        proof {
            assert(installs.deep_view().skip(i as int)[0] == installs@[i as int]@);
            assert(installs.deep_view().skip(i as int).skip(1) =~= installs.deep_view().skip(
                i as int + 1,
            ));
        }
        if str_eq(installs[i].id.as_str(), id) {
            return Some(i);
        }
        i = i + 1;
    }
    proof {
        if spec_has_install(installs.deep_view(), id@) {
            let j = choose|j: int|
                0 <= j < installs.deep_view().len() && (#[trigger] installs.deep_view()[j]).id
                    == id@;
        }
    }
    None
}

/// Resolve the selected install ids to their paths. Success is owed
/// exactly when every selected id is installed; otherwise the error
/// names all selections that are not.
pub fn resolve_selected_discord_locations(
    selected_ids: &Vec<String>,
    installs: &Vec<DiscordInstall>,
) -> (r: Result<Vec<String>, String>)
    ensures
        spec_missing_ids(installs.deep_view(), selected_ids.deep_view()).len() == 0 ==> r is Ok
            && r->Ok_0.deep_view() == spec_selected_paths(
            installs.deep_view(),
            selected_ids.deep_view(),
        ),
        spec_missing_ids(installs.deep_view(), selected_ids.deep_view()).len() > 0 ==> r is Err
            && r->Err_0@ == "The following Discord client selections are not installed: "@
            + crate::text::spec_join_comma(
            spec_missing_ids(installs.deep_view(), selected_ids.deep_view()),
        ),
{
    let mut locations: Vec<String> = Vec::new();
    let mut missing: Vec<String> = Vec::new();
    let ghost iv = installs.deep_view();
    let ghost sv = selected_ids.deep_view();
    let mut i: usize = 0;
    proof {
        assert(sv.skip(0) =~= sv);
    }
    while i < selected_ids.len()
        invariant
            i <= selected_ids@.len(),
            selected_ids@.len() == sv.len(),
            sv == selected_ids.deep_view(),
            iv == installs.deep_view(),
            locations.deep_view() + spec_selected_paths(iv, sv.skip(i as int))
                == spec_selected_paths(iv, sv),
            missing.deep_view() + spec_missing_ids(iv, sv.skip(i as int)) == spec_missing_ids(
                iv,
                sv,
            ),
        decreases selected_ids.len() - i,
    {
        proof {
            assert(sv.skip(i as int)[0] == selected_ids@[i as int]@);
            assert(sv.skip(i as int).skip(1) =~= sv.skip(i as int + 1));
        }
        let ghost prev_loc = locations.deep_view();
        let ghost prev_missing = missing.deep_view();
        match find_install(installs, selected_ids[i].as_str()) {
            Some(k) => {
                locations.push(installs[k].path.clone());
                proof {
                    assert(locations.deep_view() =~= prev_loc.push(
                        spec_install_path(iv, sv[i as int]),
                    ));
                    assert(locations.deep_view() + spec_selected_paths(
                        iv,
                        sv.skip(i as int + 1),
                    ) =~= prev_loc + (seq![spec_install_path(iv, sv[i as int])]
                        + spec_selected_paths(iv, sv.skip(i as int + 1))));
                }
            },
            None => {
                missing.push(selected_ids[i].clone());
                proof {
                    assert(missing.deep_view() =~= prev_missing.push(sv[i as int]));
                    assert(missing.deep_view() + spec_missing_ids(iv, sv.skip(i as int + 1))
                        =~= prev_missing + (seq![sv[i as int]] + spec_missing_ids(
                        iv,
                        sv.skip(i as int + 1),
                    )));
                }
            },
        }
        i = i + 1;
    }
    proof {
        assert(sv.skip(i as int) =~= Seq::<Seq<char>>::empty());
        assert(locations.deep_view() + Seq::<Seq<char>>::empty() =~= locations.deep_view());
        assert(missing.deep_view() + Seq::<Seq<char>>::empty() =~= missing.deep_view());
    }
    if missing.len() > 0 {
        return Err(
            String::from_str("The following Discord client selections are not installed: ")
                .concat(join_comma(&missing).as_str()),
        );
    }
    Ok(locations)
}

} // verus!

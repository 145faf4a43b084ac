//! The process registry: recognising running instances of the host
//! application, deduplicating captured handles, terminating and
//! planning relaunches, and the cache of the most recent quiesce.
//!
//! Enumerating and signalling processes goes through the `sysinfo`
//! crate behind trusted wrappers; everything decided from what those
//! calls return is verified here.

use vstd::prelude::*;

use crate::text::{
    after_last, eq_ignore_ascii_case, file_name_of, file_stem_of, lemma_after_last_found,
    lemma_after_last_le, lemma_after_last_none, lower, spec_file_name, spec_file_stem,
};

verus! {

/// One captured process: platform process id, raw process name, the
/// executable path when known, and the command line.
pub struct DiscordProcess {
    pub pid: u32,
    pub name: String,
    pub exe: Option<String>,
    pub cmd: Vec<String>,
}

/// The mathematical value of a captured process.
pub struct ProcessView {
    pub pid: u32,
    pub name: Seq<char>,
    pub exe: Option<Seq<char>>,
    pub cmd: Seq<Seq<char>>,
}

impl View for DiscordProcess {
    type V = ProcessView;

    open spec fn view(&self) -> ProcessView {
        ProcessView {
            pid: self.pid,
            name: self.name@,
            exe: match self.exe {
                Some(e) => Some(e@),
                None => None,
            },
            cmd: self.cmd.deep_view(),
        }
    }
}

impl DeepView for DiscordProcess {
    type V = ProcessView;

    open spec fn deep_view(&self) -> ProcessView {
        self.view()
    }
}

/// Copy a vector of strings.
pub fn clone_string_vec(v: &Vec<String>) -> (r: Vec<String>)
    ensures
        r@ == v@,
{
    let mut out: Vec<String> = Vec::new();
    let mut i: usize = 0;
    while i < v.len()
        invariant
            i <= v@.len(),
            out@ =~= v@.subrange(0, i as int),
        decreases v.len() - i,
    {
        out.push(v[i].clone());
        proof {
            assert(out@ =~= v@.subrange(0, i as int + 1));
        }
        i = i + 1;
    }
    proof {
        assert(out@ =~= v@);
    }
    out
}

impl Clone for DiscordProcess {
    /// A clone has the same value.
    fn clone(&self) -> (r: Self)
        ensures
            r@ == self@,
    {
        DiscordProcess {
            pid: self.pid,
            name: self.name.clone(),
            exe: match &self.exe {
                Some(s) => Some(s.clone()),
                None => None,
            },
            cmd: clone_string_vec(&self.cmd),
        }
    }
}

/// Copy a vector of process handles.
fn clone_processes(v: &Vec<DiscordProcess>) -> (r: Vec<DiscordProcess>)
    ensures
        r.deep_view() == v.deep_view(),
{
    let mut out: Vec<DiscordProcess> = Vec::new();
    let mut i: usize = 0;
    while i < v.len()
        invariant
            i <= v@.len(),
            out.deep_view() =~= v.deep_view().subrange(0, i as int),
        decreases v.len() - i,
    {
        let ghost prev = out.deep_view();
        out.push(v[i].clone());
        proof {
            assert(out.deep_view() =~= prev.push(v@[i as int]@));
            assert(v@[i as int]@ == v.deep_view()[i as int]);
            assert(out.deep_view() =~= v.deep_view().subrange(0, i as int + 1));
        }
        i = i + 1;
    }
    proof {
        assert(out.deep_view() =~= v.deep_view());
    }
    out
}

/// The fixed signatures of the host application, compared after ASCII
/// case folding, bare or with the platform executable suffix.
pub open spec fn spec_matches_known(s: Seq<char>) -> bool {
    ||| lower(s) == "discord"@
    ||| lower(s) == "discordptb"@
    ||| lower(s) == "discordcanary"@
    ||| lower(s) == "discord.exe"@
    ||| lower(s) == "discordptb.exe"@
    ||| lower(s) == "discordcanary.exe"@
}

/// Decide whether a name matches a known host-application signature,
/// ignoring ASCII case.
pub fn matches_known_process_name(name: &str) -> (r: bool)
    ensures
        r == spec_matches_known(name@),
{
    proof {
        reveal_strlit("discord");
        reveal_strlit("discordptb");
        reveal_strlit("discordcanary");
        reveal_strlit("discord.exe");
        reveal_strlit("discordptb.exe");
        reveal_strlit("discordcanary.exe");
        assert(lower("discord"@) =~= "discord"@);
        assert(lower("discordptb"@) =~= "discordptb"@);
        assert(lower("discordcanary"@) =~= "discordcanary"@);
        assert(lower("discord.exe"@) =~= "discord.exe"@);
        assert(lower("discordptb.exe"@) =~= "discordptb.exe"@);
        assert(lower("discordcanary.exe"@) =~= "discordcanary.exe"@);
    }
    eq_ignore_ascii_case(name, "discord") || eq_ignore_ascii_case(name, "discordptb")
        || eq_ignore_ascii_case(name, "discordcanary") || eq_ignore_ascii_case(
        name,
        "discord.exe",
    ) || eq_ignore_ascii_case(name, "discordptb.exe") || eq_ignore_ascii_case(
        name,
        "discordcanary.exe",
    )
}

/// Whether a captured process belongs to the host application: its
/// executable's stem or file name matches a signature, or failing
/// that its bare process name does.
pub open spec fn spec_is_discord_process(p: ProcessView) -> bool {
    match p.exe {
        Some(e) => spec_matches_known(spec_file_stem(spec_file_name(e))) || spec_matches_known(
            spec_file_name(e),
        ) || spec_matches_known(p.name),
        None => spec_matches_known(p.name),
    }
}

/// Decide whether a captured process belongs to the host application.
pub fn is_discord_process(p: &DiscordProcess) -> (r: bool)
    ensures
        r == spec_is_discord_process(p@),
{
    if let Some(exe) = &p.exe {
        let fname = file_name_of(exe.as_str());
        let stem = file_stem_of(fname.as_str());
        if matches_known_process_name(stem.as_str()) {
            return true;
        }
        if matches_known_process_name(fname.as_str()) {
            return true;
        }
    }
    matches_known_process_name(p.name.as_str())
}

/// The stem a process is identified by: the stem of the executable's
/// file name when that is nonempty, else the raw process name.
pub open spec fn identity_stem(p: ProcessView) -> Seq<char> {
    match p.exe {
        Some(e) => {
            let st = spec_file_stem(spec_file_name(e));
            if st.len() == 0 {
                p.name
            } else {
                st
            }
        },
        None => p.name,
    }
}

/// Deduplication identity: the case-folded identity stem.
pub open spec fn identity_key(p: ProcessView) -> Seq<char> {
    lower(identity_stem(p))
}

/// The name a process is reported under: the executable's file name
/// when nonempty, else the raw process name.
pub open spec fn display_name(p: ProcessView) -> Seq<char> {
    match p.exe {
        Some(e) => {
            let f = spec_file_name(e);
            if f.len() == 0 {
                p.name
            } else {
                f
            }
        },
        None => p.name,
    }
}

/// Compute the identity stem of a process.
fn identity_stem_exec(p: &DiscordProcess) -> (r: String)
    ensures
        r@ == identity_stem(p@),
{
    if let Some(exe) = &p.exe {
        let fname = file_name_of(exe.as_str());
        let stem = file_stem_of(fname.as_str());
        if stem.unicode_len() == 0 {
            p.name.clone()
        } else {
            stem
        }
    } else {
        p.name.clone()
    }
}

/// Compute the display name of a process.
fn display_name_exec(p: &DiscordProcess) -> (r: String)
    ensures
        r@ == display_name(p@),
{
    if let Some(exe) = &p.exe {
        let fname = file_name_of(exe.as_str());
        if fname.unicode_len() == 0 {
            p.name.clone()
        } else {
            fname
        }
    } else {
        p.name.clone()
    }
}

/// First-seen deduplication by identity key, with the keys already
/// taken collected in `seen`.
pub open spec fn dedupe_rec(s: Seq<ProcessView>, seen: Set<Seq<char>>) -> Seq<ProcessView>
    decreases s.len(),
{
    if s.len() == 0 {
        Seq::empty()
    } else if seen.contains(identity_key(s[0])) {
        dedupe_rec(s.skip(1), seen)
    } else {
        seq![s[0]] + dedupe_rec(s.skip(1), seen.insert(identity_key(s[0])))
    }
}

/// The distinct processes of a capture, first seen first, one per
/// identity key.
pub open spec fn spec_dedupe(s: Seq<ProcessView>) -> Seq<ProcessView> {
    dedupe_rec(s, Set::empty())
}

/// The display names of the deduplicated processes.
pub open spec fn spec_dedupe_names(s: Seq<ProcessView>) -> Seq<Seq<char>> {
    spec_dedupe(s).map_values(|p: ProcessView| display_name(p))
}

/// The set of identity keys of a sequence of processes.
pub open spec fn keys_of(s: Seq<ProcessView>) -> Set<Seq<char>> {
    s.map_values(|p: ProcessView| identity_key(p)).to_set()
}

/// Group captured handles by identity, keeping the first handle per
/// key and its display name, in first-seen order.
pub fn dedupe_processes(processes: &Vec<DiscordProcess>) -> (r: (Vec<String>, Vec<
    DiscordProcess,
>))
    ensures
        r.1.deep_view() == spec_dedupe(processes.deep_view()),
        r.0.deep_view() == spec_dedupe_names(processes.deep_view()),
{
    let ghost views = processes.deep_view();
    let mut names: Vec<String> = Vec::new();
    let mut deduped: Vec<DiscordProcess> = Vec::new();
    let mut i: usize = 0;
    proof {
        assert(views.skip(0) =~= views);
        assert(deduped.deep_view() =~= Seq::<ProcessView>::empty());
        assert(keys_of(deduped.deep_view()) =~= Set::<Seq<char>>::empty());
    }
    while i < processes.len()
        invariant
            i <= views.len(),
            views == processes.deep_view(),
            views.len() == processes@.len(),
            spec_dedupe(views) == deduped.deep_view() + dedupe_rec(
                views.skip(i as int),
                keys_of(deduped.deep_view()),
            ),
            names.deep_view().len() == deduped.deep_view().len(),
            forall|j: int|
                0 <= j < names.deep_view().len() ==> #[trigger] names.deep_view()[j]
                    == display_name(deduped.deep_view()[j]),
        decreases processes.len() - i,
    {
        let p = &processes[i];
        proof {
            assert(p@ == views[i as int]);
        }
        let stem = identity_stem_exec(p);
        let mut found = false;
        let mut j: usize = 0;
        while j < deduped.len()
            invariant
                j <= deduped@.len(),
                deduped@.len() == deduped.deep_view().len(),
                stem@ == identity_stem(views[i as int]),
                i < views.len(),
                views == processes.deep_view(),
                found <==> exists|k: int|
                    0 <= k < j && identity_key(#[trigger] deduped.deep_view()[k])
                        == identity_key(views[i as int]),
            decreases deduped.len() - j,
        {
            let other = identity_stem_exec(&deduped[j]);
            proof {
                assert(deduped[j as int]@ == deduped.deep_view()[j as int]);
            }
            if eq_ignore_ascii_case(stem.as_str(), other.as_str()) {
                found = true;
            }
            j = j + 1;
        }
        proof {
            lemma_keys_of_contains(deduped.deep_view(), views[i as int]);
            assert(views.skip(i as int)[0] == views[i as int]);
            assert(views.skip(i as int).skip(1) =~= views.skip(i as int + 1));
        }
        if !found {
            let ghost old_deduped = deduped.deep_view();
            let ghost old_names = names.deep_view();
            names.push(display_name_exec(p));
            deduped.push(p.clone());
            proof {
                assert(deduped.deep_view() =~= old_deduped.push(views[i as int]));
                assert(names.deep_view() =~= old_names.push(
                    display_name(views[i as int]),
                ));
                lemma_keys_of_push(old_deduped, views[i as int]);
                assert(deduped.deep_view() + dedupe_rec(
                    views.skip(i as int + 1),
                    keys_of(deduped.deep_view()),
                ) =~= old_deduped + (seq![views[i as int]] + dedupe_rec(
                    views.skip(i as int + 1),
                    keys_of(old_deduped).insert(identity_key(views[i as int])),
                )));
            }
        }
        i = i + 1;
    }
    proof {
        assert(views.skip(i as int) =~= Seq::<ProcessView>::empty());
        assert(spec_dedupe(views) =~= deduped.deep_view());
        assert(names.deep_view() =~= spec_dedupe_names(views));
    }
    (names, deduped)
}

/// Membership in the key set is witnessed by an element.
proof fn lemma_keys_of_contains(s: Seq<ProcessView>, p: ProcessView)
    ensures
        keys_of(s).contains(identity_key(p)) <==> exists|k: int|
            0 <= k < s.len() && identity_key(#[trigger] s[k]) == identity_key(p),
{
    let m = s.map_values(|q: ProcessView| identity_key(q));
    if keys_of(s).contains(identity_key(p)) {
        let idx = choose|idx: int| 0 <= idx < m.len() && m[idx] == identity_key(p);
        assert(identity_key(s[idx]) == identity_key(p));
    }
    if exists|k: int| 0 <= k < s.len() && identity_key(#[trigger] s[k]) == identity_key(p) {
        let k = choose|k: int|
            0 <= k < s.len() && identity_key(#[trigger] s[k]) == identity_key(p);
        assert(m[k] == identity_key(p));
        assert(m.to_set().contains(identity_key(p)));
    }
}

/// Appending an element adds its key to the key set.
proof fn lemma_keys_of_push(s: Seq<ProcessView>, p: ProcessView)
    ensures
        keys_of(s.push(p)) == keys_of(s).insert(identity_key(p)),
{
    let f = |q: ProcessView| identity_key(q);
    assert(s.push(p).map_values(f) =~= s.map_values(f).push(identity_key(p)));
    assert(s.map_values(f).push(identity_key(p)).to_set() =~= s.map_values(
        f,
    ).to_set().insert(identity_key(p))) by {
        assert forall|x: Seq<char>|
            s.map_values(f).push(identity_key(p)).to_set().contains(x) implies s.map_values(
            f,
        ).to_set().insert(identity_key(p)).contains(x) by {
            let idx = choose|idx: int|
                0 <= idx < s.map_values(f).push(identity_key(p)).len() && s.map_values(f).push(
                    identity_key(p),
                )[idx] == x;
            if idx < s.len() {
                assert(s.map_values(f)[idx] == x);
            }
        }
        assert forall|x: Seq<char>|
            s.map_values(f).to_set().insert(identity_key(p)).contains(x) implies s.map_values(
            f,
        ).push(identity_key(p)).to_set().contains(x) by {
            if x == identity_key(p) {
                assert(s.map_values(f).push(identity_key(p))[s.len() as int] == x);
            } else {
                let idx = choose|idx: int|
                    0 <= idx < s.map_values(f).len() && s.map_values(f)[idx] == x;
                assert(s.map_values(f).push(identity_key(p))[idx] == x);
            }
        }
    }
}

/// Relies on sysinfo's `System::new_all`, `refresh_all` and
/// `processes`: a snapshot of the process table, each entry converted
/// to plain values. What is running depends on the machine, so
/// nothing is promised of the result.
#[verifier::external_body]
fn snapshot_processes() -> (r: Vec<DiscordProcess>) {
    let mut system = sysinfo::System::new_all();
    system.refresh_all();
    system
        .processes()
        .iter()
        .map(|(pid, process)| DiscordProcess {
            pid: pid.as_u32(),
            name: process.name().to_string_lossy().into_owned(),
            exe: process.exe().map(|p| p.to_string_lossy().into_owned()),
            cmd: process.cmd().iter().map(|a| a.to_string_lossy().into_owned()).collect(),
        })
        .collect()
}

/// Relies on sysinfo's `System::process` and `Process::kill_with`
/// (falling back to `kill` where the signal is unsupported on the
/// platform): the raw outcome of one kill attempt, or nothing when
/// the process is absent from a fresh process table. What comes back
/// depends on the machine, so nothing is promised of the result.
#[verifier::external_body]
fn try_kill_process(pid: u32) -> (r: Option<bool>) {
    let mut system = sysinfo::System::new_all();
    system.refresh_all();
    system.process(sysinfo::Pid::from_u32(pid)).map(
        |process| process.kill_with(sysinfo::Signal::Kill).unwrap_or_else(|| process.kill()),
    )
}

/// Relies on sysinfo's `System::process` on a fresh snapshot: whether
/// the process is currently present. Machine state; nothing is
/// promised of the result.
#[verifier::external_body]
fn process_alive(pid: u32) -> (r: bool) {
    let mut system = sysinfo::System::new_all();
    system.refresh_all();
    system.process(sysinfo::Pid::from_u32(pid)).is_some()
}

/// When a kill attempt confirms a process closed: the process could
/// not be found to begin with (already exited counts as success), the
/// kill reported success, or the process is absent on the re-check
/// after the attempt.
pub open spec fn spec_confirmed_closed(attempt: Option<bool>, alive_after: bool) -> bool {
    match attempt {
        None => true,
        Some(killed) => killed || !alive_after,
    }
}

/// Decide whether one kill attempt confirms the process closed.
pub fn confirm_closed(attempt: Option<bool>, alive_after: bool) -> (r: bool)
    ensures
        r == spec_confirmed_closed(attempt, alive_after),
{
    match attempt {
        None => true,
        Some(killed) => killed || !alive_after,
    }
}

/// The handles of a capture that belong to the host application, in
/// order.
pub open spec fn spec_filter_discord(s: Seq<ProcessView>) -> Seq<ProcessView>
    decreases s.len(),
{
    if s.len() == 0 {
        Seq::empty()
    } else {
        let rest = spec_filter_discord(s.skip(1));
        if spec_is_discord_process(s[0]) {
            seq![s[0]] + rest
        } else {
            rest
        }
    }
}

/// Every handle the filter keeps matches a signature.
pub proof fn lemma_filter_discord_matches(s: Seq<ProcessView>)
    ensures
        forall|i: int|
            0 <= i < spec_filter_discord(s).len() ==> spec_is_discord_process(
                #[trigger] spec_filter_discord(s)[i],
            ),
    decreases s.len(),
{
    if s.len() > 0 {
        lemma_filter_discord_matches(s.skip(1));
        assert forall|i: int|
            0 <= i < spec_filter_discord(s).len() implies spec_is_discord_process(
            #[trigger] spec_filter_discord(s)[i],
        ) by {
            if spec_is_discord_process(s[0]) {
                if i > 0 {
                    assert(spec_filter_discord(s)[i] == spec_filter_discord(s.skip(1))[i - 1]);
                }
            } else {
                assert(spec_filter_discord(s)[i] == spec_filter_discord(s.skip(1))[i]);
            }
        }
    }
}

/// Keep exactly the handles of a capture that match a host-application
/// signature, in order.
pub fn filter_discord_processes(all: Vec<DiscordProcess>) -> (r: Vec<DiscordProcess>)
    ensures
        r.deep_view() == spec_filter_discord(all.deep_view()),
{
    let ghost views = all.deep_view();
    let mut out: Vec<DiscordProcess> = Vec::new();
    let mut i: usize = 0;
    proof {
        assert(views.skip(0) =~= views);
    }
    while i < all.len()
        invariant
            i <= all@.len(),
            all@.len() == views.len(),
            views == all.deep_view(),
            spec_filter_discord(views) == out.deep_view() + spec_filter_discord(
                views.skip(i as int),
            ),
        decreases all.len() - i,
    {
        proof {
            assert(views.skip(i as int)[0] == all@[i as int]@);
            assert(views.skip(i as int).skip(1) =~= views.skip(i as int + 1));
        }
        let ghost prev = out.deep_view();
        if is_discord_process(&all[i]) {
            out.push(all[i].clone());
            proof {
                assert(out.deep_view() =~= prev.push(views[i as int]));
                assert(out.deep_view() + spec_filter_discord(views.skip(i as int + 1)) =~= prev
                    + (seq![views[i as int]] + spec_filter_discord(views.skip(i as int + 1))));
            }
        }
        i = i + 1;
    }
    proof {
        assert(views.skip(i as int) =~= Seq::<ProcessView>::empty());
        assert(out.deep_view() + Seq::<ProcessView>::empty() =~= out.deep_view());
    }
    out
}

/// Capture the running host-application instances: a fresh snapshot,
/// filtered by signature match. Read-only; an empty result means no
/// instance was recognised.
pub fn capture_discord_processes() -> (r: Vec<DiscordProcess>)
    ensures
        forall|i: int|
            0 <= i < r.deep_view().len() ==> spec_is_discord_process(
                #[trigger] r.deep_view()[i],
            ),
{
    let all = snapshot_processes();
    proof {
        lemma_filter_discord_matches(all.deep_view());
    }
    filter_discord_processes(all)
}

/// Whether `a` is an in-order subsequence of `b`.
pub open spec fn is_subsequence(a: Seq<ProcessView>, b: Seq<ProcessView>) -> bool
    decreases a.len() + b.len(),
{
    if a.len() == 0 {
        true
    } else if b.len() == 0 {
        false
    } else if a[0] == b[0] {
        is_subsequence(a.skip(1), b.skip(1))
    } else {
        is_subsequence(a, b.skip(1))
    }
}

/// A subsequence survives extending both sides by the same element.
proof fn lemma_subsequence_push_both(a: Seq<ProcessView>, b: Seq<ProcessView>, x: ProcessView)
    requires
        is_subsequence(a, b),
    ensures
        is_subsequence(a.push(x), b.push(x)),
    decreases a.len() + b.len(),
{
    if a.len() == 0 {
        lemma_subsequence_single(x, b);
        assert(a.push(x) =~= seq![x]);
    } else {
        assert(b.len() > 0);
        assert(a.push(x)[0] == a[0]);
        assert(b.push(x)[0] == b[0]);
        if a[0] == b[0] {
            lemma_subsequence_push_both(a.skip(1), b.skip(1), x);
            assert(a.push(x).skip(1) =~= a.skip(1).push(x));
            assert(b.push(x).skip(1) =~= b.skip(1).push(x));
            assert(is_subsequence(a.push(x).skip(1), b.push(x).skip(1)));
        } else {
            lemma_subsequence_push_both(a, b.skip(1), x);
            assert(b.push(x).skip(1) =~= b.skip(1).push(x));
            assert(is_subsequence(a.push(x), b.push(x).skip(1)));
        }
    }
}

/// One element is a subsequence of anything it is appended to.
proof fn lemma_subsequence_single(x: ProcessView, b: Seq<ProcessView>)
    ensures
        is_subsequence(seq![x], b.push(x)),
    decreases b.len(),
{
    if b.len() == 0 || b[0] == x {
        assert(b.push(x)[0] == x);
        assert(seq![x].skip(1) =~= Seq::<ProcessView>::empty());
        assert(is_subsequence(Seq::<ProcessView>::empty(), b.push(x).skip(1)));
        assert(is_subsequence(seq![x].skip(1), b.push(x).skip(1)));
    } else {
        lemma_subsequence_single(x, b.skip(1));
        assert(b.push(x)[0] == b[0]);
        assert(b.push(x).skip(1) =~= b.skip(1).push(x));
        assert(is_subsequence(seq![x], b.push(x).skip(1)));
    }
}

/// A subsequence survives extending the larger side.
proof fn lemma_subsequence_push_right(a: Seq<ProcessView>, b: Seq<ProcessView>, x: ProcessView)
    requires
        is_subsequence(a, b),
    ensures
        is_subsequence(a, b.push(x)),
    decreases a.len() + b.len(),
{
    if a.len() == 0 {
    } else {
        assert(b.len() > 0);
        assert(b.push(x)[0] == b[0]);
        if a[0] == b[0] {
            lemma_subsequence_push_right(a.skip(1), b.skip(1), x);
            assert(b.push(x).skip(1) =~= b.skip(1).push(x));
        } else {
            lemma_subsequence_push_right(a, b.skip(1), x);
            assert(b.push(x).skip(1) =~= b.skip(1).push(x));
        }
    }
}

/// Attempt to terminate every given process; report those confirmed
/// closed, as an in-order subsequence of the input. A process is
/// confirmed by [`spec_confirmed_closed`] on its kill attempt; the
/// others are left out, and no failure aborts the batch.
pub fn close_processes(processes: &Vec<DiscordProcess>) -> (r: Vec<DiscordProcess>)
    ensures
        is_subsequence(r.deep_view(), processes.deep_view()),
        forall|i: int|
            0 <= i < r.deep_view().len() ==> processes.deep_view().contains(
                #[trigger] r.deep_view()[i],
            ),
{
    let ghost views = processes.deep_view();
    let mut out: Vec<DiscordProcess> = Vec::new();
    let mut i: usize = 0;
    proof {
        assert(views.take(0) =~= Seq::<ProcessView>::empty());
    }
    while i < processes.len()
        invariant
            i <= processes@.len(),
            processes@.len() == views.len(),
            views == processes.deep_view(),
            is_subsequence(out.deep_view(), views.take(i as int)),
            forall|j: int|
                0 <= j < out.deep_view().len() ==> views.contains(
                    #[trigger] out.deep_view()[j],
                ),
        decreases processes.len() - i,
    {
        let ghost prev = out.deep_view();
        let attempt = try_kill_process(processes[i].pid);
        let alive_after = match attempt {
            Some(_) => process_alive(processes[i].pid),
            None => false,
        };
        proof {
            assert(views.take(i as int + 1) =~= views.take(i as int).push(views[i as int]));
        }
        if confirm_closed(attempt, alive_after) {
            out.push(processes[i].clone());
            proof {
                assert(out.deep_view() =~= prev.push(views[i as int]));
                assert(views[i as int] == processes@[i as int]@);
                lemma_subsequence_push_both(prev, views.take(i as int), views[i as int]);
            }
        } else {
            proof {
                lemma_subsequence_push_right(prev, views.take(i as int), views[i as int]);
            }
        }
        i = i + 1;
    }
    proof {
        assert(views.take(views.len() as int) =~= views);
    }
    out
}

/// Two captured handles with the same identity key collapse to a
/// single entry, whatever their process ids.
pub proof fn lemma_dedupe_same_identity(a: ProcessView, b: ProcessView)
    requires
        identity_key(a) == identity_key(b),
    ensures
        spec_dedupe(seq![a, b]).len() == 1,
        spec_dedupe(seq![a, b]) == seq![a],
{
    let s = seq![a, b];
    assert(s.skip(1) =~= seq![b]);
    assert(seq![b].skip(1) =~= Seq::<ProcessView>::empty());
    let seen = Set::<Seq<char>>::empty().insert(identity_key(a));
    assert(seen.contains(identity_key(b)));
    assert(dedupe_rec(seq![b], seen) == dedupe_rec(seq![b].skip(1), seen));
    assert(dedupe_rec(Seq::<ProcessView>::empty(), seen) =~= Seq::<ProcessView>::empty());
    assert(!Set::<Seq<char>>::empty().contains(identity_key(s[0])));
    assert(spec_dedupe(s) =~= seq![a]);
}

/// Two captured handles with the same executable file name collapse
/// to a single entry, whatever their process ids: the identity is the
/// case-folded stem of that file name, never the process id.
pub proof fn lemma_dedupe_same_executable(a: ProcessView, b: ProcessView)
    requires
        a.exe is Some,
        b.exe is Some,
        spec_file_name(a.exe->0) == spec_file_name(b.exe->0),
        spec_file_stem(spec_file_name(a.exe->0)).len() > 0,
    ensures
        spec_dedupe(seq![a, b]) == seq![a],
{
    assert(identity_stem(a) == identity_stem(b));
    lemma_dedupe_same_identity(a, b);
}

/// The outcome of one quiesce: names reported closed, the
/// deduplicated captured handles, and whether closing was skipped.
pub struct DiscordClientsState {
    pub closed_clients: Vec<String>,
    pub processes: Vec<DiscordProcess>,
    pub closing_skipped: bool,
}

/// The snapshot the closed-names report is computed from: what
/// termination confirmed, or, when that is empty while something was
/// captured, the whole capture (the host is then assumed unreachable
/// and reported closed).
pub open spec fn spec_quiesce_snapshot(
    captured: Seq<ProcessView>,
    closed: Seq<ProcessView>,
) -> Seq<ProcessView> {
    if closed.len() == 0 && captured.len() > 0 {
        captured
    } else {
        closed
    }
}

/// The names a quiesce reports closed: the deduplicated snapshot's
/// display names, falling back to the capture's display names and
/// then to the snapshot handles' raw names when empty.
pub open spec fn spec_quiesce_names(
    captured: Seq<ProcessView>,
    closed: Seq<ProcessView>,
) -> Seq<Seq<char>> {
    let labels = spec_dedupe_names(captured);
    let snapshot = spec_quiesce_snapshot(captured, closed);
    let names = spec_dedupe_names(snapshot);
    let confirmed = spec_dedupe(snapshot);
    if names.len() == 0 && labels.len() > 0 {
        labels
    } else if names.len() == 0 && confirmed.len() > 0 {
        confirmed.map_values(|p: ProcessView| p.name)
    } else {
        names
    }
}

/// Assemble the report of one quiesce from what was captured and what
/// termination confirmed closed. The recorded handles are the whole
/// deduplicated capture, so a later restore relaunches everything
/// that was quiesced, confirmed closed or not; only the reported
/// names lean on what termination confirmed.
pub fn assemble_quiesce(captured: &Vec<DiscordProcess>, closed: &Vec<DiscordProcess>) -> (r:
    DiscordClientsState)
    ensures
        r.closed_clients.deep_view() == spec_quiesce_names(
            captured.deep_view(),
            closed.deep_view(),
        ),
        r.processes.deep_view() == spec_dedupe(captured.deep_view()),
        !r.closing_skipped,
{
    let (labels, captured_deduped) = dedupe_processes(captured);
    let use_captured = closed.len() == 0 && captured.len() > 0;
    let snapshot = if use_captured {
        captured
    } else {
        closed
    };
    proof {
        assert(snapshot.deep_view() == spec_quiesce_snapshot(
            captured.deep_view(),
            closed.deep_view(),
        ));
    }
    let (mut names, confirmed) = dedupe_processes(snapshot);
    if names.len() == 0 && labels.len() > 0 {
        names = labels;
    }
    if names.len() == 0 && confirmed.len() > 0 {
        names = raw_names(&confirmed);
    }
    DiscordClientsState {
        closed_clients: names,
        processes: captured_deduped,
        closing_skipped: false,
    }
}

/// The raw process names of a list of handles.
fn raw_names(v: &Vec<DiscordProcess>) -> (r: Vec<String>)
    ensures
        r.deep_view() == v.deep_view().map_values(|p: ProcessView| p.name),
{
    let mut out: Vec<String> = Vec::new();
    let mut i: usize = 0;
    while i < v.len()
        invariant
            i <= v@.len(),
            v@.len() == v.deep_view().len(),
            out.deep_view() =~= v.deep_view().subrange(0, i as int).map_values(
                |p: ProcessView| p.name,
            ),
        decreases v.len() - i,
    {
        let ghost prev = out.deep_view();
        out.push(v[i].name.clone());
        proof {
            assert(out.deep_view() =~= prev.push(v@[i as int]@.name));
            assert(v.deep_view().subrange(0, i as int + 1).map_values(
                |p: ProcessView| p.name,
            ) =~= v.deep_view().subrange(0, i as int).map_values(|p: ProcessView| p.name).push(
                v.deep_view()[i as int].name,
            ));
        }
        i = i + 1;
    }
    proof {
        assert(v.deep_view().subrange(0, v.deep_view().len() as int) =~= v.deep_view());
    }
    out
}

/// Deduplicating something nonempty keeps at least its first handle.
proof fn lemma_dedupe_nonempty(s: Seq<ProcessView>)
    requires
        s.len() > 0,
    ensures
        spec_dedupe(s).len() > 0,
{
    assert(!Set::<Seq<char>>::empty().contains(identity_key(s[0])));
}

/// A nonempty recorded set always comes with a nonempty closed-names
/// report: the fallback chain never leaves the names empty while
/// handles were recorded.
pub proof fn lemma_quiesce_invariant(captured: Seq<ProcessView>, closed: Seq<ProcessView>)
    ensures
        spec_dedupe(captured).len() > 0 ==> spec_quiesce_names(captured, closed).len() > 0,
{
    if spec_dedupe(captured).len() > 0 {
        assert(captured.len() > 0);
        let snapshot = spec_quiesce_snapshot(captured, closed);
        lemma_dedupe_nonempty(snapshot);
    }
}

/// The program a relaunch would start for a handle: the recorded
/// executable, else the first token of the recorded command line.
pub open spec fn spec_restart_target(p: ProcessView) -> Option<Seq<char>> {
    match p.exe {
        Some(e) => Some(e),
        None => {
            if p.cmd.len() > 0 {
                Some(p.cmd[0])
            } else {
                None
            }
        },
    }
}

/// Resolve the launch target of one handle, or say why none can be
/// determined. Failure here concerns this handle alone and never
/// aborts a batch.
pub fn restart_target(p: &DiscordProcess) -> (r: Result<String, String>)
    ensures
        match spec_restart_target(p@) {
            Some(t) => r is Ok && r->Ok_0@ == t,
            None => r is Err && r->Err_0@
                == "Could not determine restart command for Discord process "@ + p.name@,
        },
{
    if let Some(exe) = &p.exe {
        return Ok(exe.clone());
    }
    if p.cmd.len() > 0 {
        proof {
            assert(p@.cmd[0] == p.cmd@[0]@);
        }
        return Ok(p.cmd[0].clone());
    }
    Err(
        String::from_str("Could not determine restart command for Discord process ").concat(
            p.name.as_str(),
        ),
    )
}

/// The directory containing a path: everything before the last
/// separator, the separator itself when the path begins with one, and
/// nothing for a bare name.
pub open spec fn spec_parent_dir(p: Seq<char>) -> Option<Seq<char>> {
    let a = vstd::math::max(after_last(p, '/'), after_last(p, '\\'));
    if a == 0 {
        None
    } else if a == 1 {
        Some(p.take(1))
    } else {
        Some(p.take(a - 1))
    }
}

/// Compute the containing directory of a launch target, where one is
/// derivable: the working directory a relaunch defaults to.
pub fn parent_dir_of(p: &str) -> (r: Option<String>)
    ensures
        match spec_parent_dir(p@) {
            Some(d) => r is Some && r->0@ == d,
            None => r is None,
        },
{
    let len = p.unicode_len();
    let mut i: usize = len;
    while i > 0
        invariant
            i <= len,
            len == p@.len(),
            forall|j: int| i <= j < len ==> p@[j] != '/' && p@[j] != '\\',
        decreases i,
    {
        let c = p.get_char(i - 1);
        if c == '/' || c == '\\' {
            proof {
                if c == '/' {
                    lemma_after_last_found(p@, '/', i as int - 1);
                    lemma_after_last_le(p@, '\\', i as int - 1);
                } else {
                    lemma_after_last_found(p@, '\\', i as int - 1);
                    lemma_after_last_le(p@, '/', i as int - 1);
                }
            }
            if i == 1 {
                let sub = p.substring_char(0, 1);
                return Some(sub.to_owned());
            }
            let sub = p.substring_char(0, i - 1);
            return Some(sub.to_owned());
        }
        i = i - 1;
    }
    proof {
        lemma_after_last_none(p@, '/');
        lemma_after_last_none(p@, '\\');
    }
    None
}

/// Report the closed names of a quiesce for display, falling back to
/// the recorded handles' raw names when the report is empty but
/// handles were captured.
pub fn fallback_closed_names(state: &DiscordClientsState) -> (r: Vec<String>)
    ensures
        state.closed_clients.deep_view().len() == 0 && state.processes.deep_view().len() > 0
            ==> r.deep_view() == state.processes.deep_view().map_values(
            |p: ProcessView| p.name,
        ),
        !(state.closed_clients.deep_view().len() == 0 && state.processes.deep_view().len() > 0)
            ==> r.deep_view() == state.closed_clients.deep_view(),
{
    if state.closed_clients.len() == 0 && state.processes.len() > 0 {
        raw_names(&state.processes)
    } else {
        clone_string_vec(&state.closed_clients)
    }
}

/// The record of the most recent quiesce, read once by a later
/// restore. All access must be serialised by the owner.
pub struct LastClosedCache {
    pub processes: Vec<DiscordProcess>,
    pub closing_skipped: bool,
}

/// What a restore learns from the cache.
pub struct LastClosedState {
    pub processes: Vec<DiscordProcess>,
    pub closing_skipped: bool,
}

impl LastClosedCache {
    /// An empty cache: nothing recorded, nothing skipped.
    pub fn new() -> (r: Self)
        ensures
            r.processes.deep_view() == Seq::<ProcessView>::empty(),
            !r.closing_skipped,
    {
        let r = LastClosedCache { processes: Vec::new(), closing_skipped: false };
        proof {
            assert(r.processes.deep_view() =~= Seq::<ProcessView>::empty());
        }
        r
    }
}

/// Read and clear the cache: the caller gets what the most recent
/// quiesce recorded, and the cache reverts to empty with the skip
/// flag reset, so a second take finds nothing.
pub fn take_last_closed_state(cache: &mut LastClosedCache) -> (r: LastClosedState)
    ensures
        r.processes.deep_view() == old(cache).processes.deep_view(),
        r.closing_skipped == old(cache).closing_skipped,
        final(cache).processes.deep_view() == Seq::<ProcessView>::empty(),
        !final(cache).closing_skipped,
{
    let processes = clone_processes(&cache.processes);
    let closing_skipped = cache.closing_skipped;
    cache.processes = Vec::new();
    cache.closing_skipped = false;
    proof {
        assert(cache.processes.deep_view() =~= Seq::<ProcessView>::empty());
    }
    LastClosedState { processes, closing_skipped }
}

/// Quiesce the host application. Disabled, it only records the skip
/// and reports one; enabled, it captures, terminates, assembles the
/// report from what came back, and records the deduplicated handles
/// for a later restore, overwriting any earlier record.
pub fn close_discord_clients(cache: &mut LastClosedCache, close_enabled: bool) -> (r:
    DiscordClientsState)
    ensures
        !close_enabled ==> {
            &&& r.closing_skipped
            &&& r.closed_clients.deep_view() == Seq::<Seq<char>>::empty()
            &&& r.processes.deep_view() == Seq::<ProcessView>::empty()
            &&& final(cache).closing_skipped
            &&& final(cache).processes.deep_view() == Seq::<ProcessView>::empty()
        },
        close_enabled ==> {
            &&& !r.closing_skipped
            &&& !final(cache).closing_skipped
            &&& final(cache).processes.deep_view() == r.processes.deep_view()
            &&& (r.processes.deep_view().len() > 0 ==> r.closed_clients.deep_view().len() > 0)
            &&& (exists|captured: Seq<ProcessView>, closed: Seq<ProcessView>|
                {
                    &&& r.closed_clients.deep_view() == spec_quiesce_names(captured, closed)
                    &&& r.processes.deep_view() == spec_dedupe(captured)
                    &&& (forall|i: int|
                        0 <= i < captured.len() ==> spec_is_discord_process(
                            #[trigger] captured[i],
                        ))
                    &&& (forall|i: int|
                        0 <= i < closed.len() ==> captured.contains(#[trigger] closed[i]))
                })
        },
{
    if !close_enabled {
        cache.processes = Vec::new();
        cache.closing_skipped = true;
        proof {
            assert(cache.processes.deep_view() =~= Seq::<ProcessView>::empty());
        }
        let r = DiscordClientsState {
            closed_clients: Vec::new(),
            processes: Vec::new(),
            closing_skipped: true,
        };
        proof {
            assert(r.closed_clients.deep_view() =~= Seq::<Seq<char>>::empty());
            assert(r.processes.deep_view() =~= Seq::<ProcessView>::empty());
        }
        return r;
    }
    let captured = capture_discord_processes();
    let closed = close_processes(&captured);
    let state = assemble_quiesce(&captured, &closed);
    proof {
        lemma_quiesce_invariant(captured.deep_view(), closed.deep_view());
    }
    cache.processes = clone_processes(&state.processes);
    cache.closing_skipped = false;
    state
}

} // verus!

//! Dependency checking: the external tools a build needs, how their
//! installed versions are read out of command output, how versions
//! compare against the recommended ones, and the status report shown
//! for each tool.
//!
//! Running the tools is the surrounding application's job; what their
//! output means is decided here.

use vstd::prelude::*;

use crate::text::{is_ws, replace_all, spec_replace, str_eq};

verus! {

/// An install command for one platform.
pub struct InstallCommand {
    pub command: String,
    pub args: Vec<String>,
    pub display_label: Option<String>,
}

/// The mathematical value of an install command.
pub struct InstallCommandView {
    pub command: Seq<char>,
    pub args: Seq<Seq<char>>,
    pub display_label: Option<Seq<char>>,
}

impl View for InstallCommand {
    type V = InstallCommandView;

    open spec fn view(&self) -> InstallCommandView {
        InstallCommandView {
            command: self.command@,
            args: self.args.deep_view(),
            display_label: match self.display_label {
                Some(l) => Some(l@),
                None => None,
            },
        }
    }
}

impl DeepView for InstallCommand {
    type V = InstallCommandView;

    open spec fn deep_view(&self) -> InstallCommandView {
        self.view()
    }
}

/// An install command keyed by the platform it applies to.
pub struct InstallEntry {
    pub platform: String,
    pub install: InstallCommand,
}

/// The mathematical value of a keyed install command.
pub struct InstallEntryView {
    pub platform: Seq<char>,
    pub install: InstallCommandView,
}

impl View for InstallEntry {
    type V = InstallEntryView;

    open spec fn view(&self) -> InstallEntryView {
        InstallEntryView { platform: self.platform@, install: self.install@ }
    }
}

impl DeepView for InstallEntry {
    type V = InstallEntryView;

    open spec fn deep_view(&self) -> InstallEntryView {
        self.view()
    }
}

/// One tool the build depends on: how to detect it and, per platform,
/// how to install it.
pub struct DependencySpec {
    pub id: String,
    pub name: String,
    pub command: String,
    pub args: Vec<String>,
    pub recommended_version: String,
    pub install_commands: Vec<InstallEntry>,
}

/// The mathematical value of a dependency description.
pub struct DependencySpecView {
    pub id: Seq<char>,
    pub name: Seq<char>,
    pub command: Seq<char>,
    pub args: Seq<Seq<char>>,
    pub recommended_version: Seq<char>,
    pub install_commands: Seq<InstallEntryView>,
}

impl View for DependencySpec {
    type V = DependencySpecView;

    open spec fn view(&self) -> DependencySpecView {
        DependencySpecView {
            id: self.id@,
            name: self.name@,
            command: self.command@,
            args: self.args.deep_view(),
            recommended_version: self.recommended_version@,
            install_commands: self.install_commands.deep_view(),
        }
    }
}

impl DeepView for DependencySpec {
    type V = DependencySpecView;

    open spec fn deep_view(&self) -> DependencySpecView {
        self.view()
    }
}

/// The report for one dependency: what is installed, whether that is
/// good enough, and whether an automated install is on offer.
pub struct DependencyStatus {
    pub id: String,
    pub name: String,
    pub recommended_version: String,
    pub installed_version: Option<String>,
    pub status: String,
    pub message: Option<String>,
    pub can_install: bool,
    pub install_label: Option<String>,
}

/// The mathematical value of a dependency report.
pub struct DependencyStatusView {
    pub id: Seq<char>,
    pub name: Seq<char>,
    pub recommended_version: Seq<char>,
    pub installed_version: Option<Seq<char>>,
    pub status: Seq<char>,
    pub message: Option<Seq<char>>,
    pub can_install: bool,
    pub install_label: Option<Seq<char>>,
}

impl View for DependencyStatus {
    type V = DependencyStatusView;

    open spec fn view(&self) -> DependencyStatusView {
        DependencyStatusView {
            id: self.id@,
            name: self.name@,
            recommended_version: self.recommended_version@,
            installed_version: match self.installed_version {
                Some(v) => Some(v@),
                None => None,
            },
            status: self.status@,
            message: match self.message {
                Some(m) => Some(m@),
                None => None,
            },
            can_install: self.can_install,
            install_label: match self.install_label {
                Some(l) => Some(l@),
                None => None,
            },
        }
    }
}

/// The names a command is looked up under: on Windows the script and
/// executable forms are tried before the bare name; elsewhere only
/// the bare name.
pub fn command_candidates(command: &str, windows: bool) -> (r: Vec<String>)
    ensures
        windows ==> r.deep_view() =~= seq![
            command@ + ".cmd"@,
            command@ + ".exe"@,
            command@,
        ],
        !windows ==> r.deep_view() =~= seq![command@],
{
    let mut out: Vec<String> = Vec::new();
    if windows {
        out.push(command.to_owned().concat(".cmd"));
        out.push(command.to_owned().concat(".exe"));
        out.push(command.to_owned());
    } else {
        out.push(command.to_owned());
    }
    out
}

/// The key a platform's install commands are filed under.
pub fn current_platform_key(windows: bool, macos: bool) -> (r: &'static str)
    ensures
        windows ==> r@ == "windows"@,
        !windows && macos ==> r@ == "macos"@,
        !windows && !macos ==> r@ == "linux"@,
{
    if windows {
        "windows"
    } else if macos {
        "macos"
    } else {
        "linux"
    }
}

/// The first install command filed under the platform, if any.
pub open spec fn spec_install_for(entries: Seq<InstallEntryView>, platform: Seq<char>) -> Option<
    int,
>
    decreases entries.len(),
{
    if entries.len() == 0 {
        None
    } else if entries[0].platform == platform {
        Some(0)
    } else {
        match spec_install_for(entries.skip(1), platform) {
            Some(i) => Some(i + 1),
            None => None,
        }
    }
}

/// Resolve the install command for a platform: the index of the first
/// entry filed under it, or nothing when no automated install exists.
pub fn resolve_install_command(spec: &DependencySpec, platform: &str) -> (r: Option<usize>)
    ensures
        match spec_install_for(spec@.install_commands, platform@) {
            Some(i) => r is Some && r->0 as int == i && 0 <= i < spec@.install_commands.len(),
            None => r is None,
        },
{
    let entries = &spec.install_commands;
    let mut i: usize = 0;
    while i < entries.len()
        invariant
            i <= entries@.len(),
            entries@.len() == entries.deep_view().len(),
            entries.deep_view() == spec@.install_commands,
            forall|j: int|
                0 <= j < i ==> (#[trigger] entries.deep_view()[j]).platform != platform@,
        decreases entries.len() - i,
    {
        proof {
            assert(entries.deep_view()[i as int] == entries@[i as int]@);
        }
        if str_eq(entries[i].platform.as_str(), platform) {
            proof {
                lemma_install_for_first(entries.deep_view(), platform@, i as int);
            }
            return Some(i);
        }
        i = i + 1;
    }
    proof {
        lemma_install_for_none(entries.deep_view(), platform@);
    }
    None
}

/// When position `k` holds the first matching platform, the lookup
/// resolves to it.
proof fn lemma_install_for_first(entries: Seq<InstallEntryView>, platform: Seq<char>, k: int)
    requires
        0 <= k < entries.len(),
        entries[k].platform == platform,
        forall|j: int| 0 <= j < k ==> (#[trigger] entries[j]).platform != platform,
    ensures
        spec_install_for(entries, platform) == Some(k),
    decreases entries.len(),
{
    if k > 0 {
        assert forall|j: int|
            0 <= j < k - 1 implies (#[trigger] entries.skip(1)[j]).platform != platform by {
            assert(entries.skip(1)[j] == entries[j + 1]);
        }
        assert(entries.skip(1)[k - 1] == entries[k]);
        lemma_install_for_first(entries.skip(1), platform, k - 1);
    }
}

/// When no platform matches, the lookup resolves to nothing.
proof fn lemma_install_for_none(entries: Seq<InstallEntryView>, platform: Seq<char>)
    requires
        forall|j: int|
            0 <= j < entries.len() ==> (#[trigger] entries[j]).platform != platform,
    ensures
        spec_install_for(entries, platform) is None,
    decreases entries.len(),
{
    if entries.len() > 0 {
        assert forall|j: int|
            0 <= j < entries.skip(1).len() implies (#[trigger] entries.skip(1)[j]).platform
            != platform by {
            assert(entries.skip(1)[j] == entries[j + 1]);
        }
        lemma_install_for_none(entries.skip(1), platform);
    }
}

/// Substitute the recommended version into templated install
/// arguments.
pub fn render_install_args(template_args: &Vec<String>, version: &str) -> (r: Vec<String>)
    ensures
        r.deep_view().len() == template_args.deep_view().len(),
        forall|i: int|
            0 <= i < r.deep_view().len() ==> #[trigger] r.deep_view()[i] == spec_replace(
                template_args.deep_view()[i],
                "{version}"@,
                version@,
            ),
{
    let mut out: Vec<String> = Vec::new();
    let mut i: usize = 0;
    while i < template_args.len()
        invariant
            i <= template_args@.len(),
            template_args@.len() == template_args.deep_view().len(),
            out.deep_view().len() == i,
            forall|j: int|
                0 <= j < i ==> #[trigger] out.deep_view()[j] == spec_replace(
                    template_args.deep_view()[j],
                    "{version}"@,
                    version@,
                ),
        decreases template_args.len() - i,
    {
        proof {
            reveal_strlit("{version}");
        }
        let ghost prev = out.deep_view();
        out.push(replace_all(template_args[i].as_str(), "{version}", version));
        proof {
            assert(template_args@[i as int]@ == template_args.deep_view()[i as int]);
            assert(out.deep_view() =~= prev.push(
                spec_replace(template_args.deep_view()[i as int], "{version}"@, version@),
            ));
        }
        i = i + 1;
    }
    out
}

/// A decimal digit.
pub open spec fn is_digit(c: char) -> bool {
    '0' <= c && c <= '9'
}

/// The digits-and-dots core of one token, scanned from position `i`:
/// digits are kept, dots are kept once a digit was seen, anything
/// else is skipped before the first digit and ends the scan after it.
pub open spec fn scan_version(t: Seq<char>, i: int, seen: bool) -> Seq<char>
    decreases t.len() - i,
{
    if i < 0 || i >= t.len() {
        Seq::empty()
    } else if is_digit(t[i]) {
        seq![t[i]] + scan_version(t, i + 1, true)
    } else if t[i] == '.' && seen {
        seq!['.'] + scan_version(t, i + 1, seen)
    } else if seen {
        Seq::empty()
    } else {
        scan_version(t, i + 1, seen)
    }
}

/// The length of the leading run of `v` characters.
pub open spec fn leading_v(t: Seq<char>, i: int) -> int
    decreases t.len() - i,
{
    if 0 <= i < t.len() && t[i] == 'v' {
        leading_v(t, i + 1)
    } else {
        i
    }
}

/// A sequence without its trailing dots.
pub open spec fn trim_trailing_dots(c: Seq<char>) -> Seq<char>
    decreases c.len(),
{
    if c.len() > 0 && c.last() == '.' {
        trim_trailing_dots(c.drop_last())
    } else {
        c
    }
}

/// The version a single token yields: its scanned core, without
/// trailing dots, provided the core holds a dot at all.
pub open spec fn token_version(t: Seq<char>) -> Option<Seq<char>> {
    let c = scan_version(t, leading_v(t, 0), false);
    if crate::text::spec_contains_char(c, '.') {
        Some(trim_trailing_dots(c))
    } else {
        None
    }
}

/// The version the whole output yields: the first whitespace-separated
/// token with a dotted number in it, scanned left to right with the
/// current token accumulated in `cur`.
pub open spec fn first_version(s: Seq<char>, i: int, cur: Seq<char>) -> Option<Seq<char>>
    decreases s.len() - i,
{
    if i < 0 || i >= s.len() {
        if cur.len() > 0 {
            token_version(cur)
        } else {
            None
        }
    } else if is_ws(s[i]) {
        if cur.len() > 0 {
            match token_version(cur) {
                Some(v) => Some(v),
                None => first_version(s, i + 1, Seq::empty()),
            }
        } else {
            first_version(s, i + 1, cur)
        }
    } else {
        first_version(s, i + 1, cur.push(s[i]))
    }
}

/// Read a dotted version number out of command output: the first
/// whitespace-separated token that holds digits with a dot, leading
/// `v` prefixes and trailing dots stripped.
pub fn extract_version(output: &str) -> (r: Option<String>)
    ensures
        match first_version(output@, 0, Seq::empty()) {
            Some(v) => r is Some && r->0@ == v,
            None => r is None,
        },
{
    let len = output.unicode_len();
    let mut i: usize = 0;
    let mut cur = String::new();
    while i < len
        invariant
            i <= len,
            len == output@.len(),
            first_version(output@, 0, Seq::empty()) == first_version(
                output@,
                i as int,
                cur@,
            ),
        decreases len - i,
    {
        let c = output.get_char(i);
        if c == ' ' || c == '\t' || c == '\n' || c == '\r' {
            if cur.as_str().unicode_len() > 0 {
                match token_version_exec(cur.as_str()) {
                    Some(v) => {
                        return Some(v);
                    },
                    None => {
                        cur = String::new();
                    },
                }
            }
        } else {
            let piece = output.substring_char(i, i + 1);
            let ghost prev_cur = cur@;
            proof {
                assert(piece@ =~= seq![output@[i as int]]);
            }
            cur.append(piece);
            proof {
                assert(cur@ =~= prev_cur.push(output@[i as int]));
            }
        }
        i = i + 1;
    }
    if cur.as_str().unicode_len() > 0 {
        token_version_exec(cur.as_str())
    } else {
        None
    }
}

/// Read the version out of one token.
fn token_version_exec(t: &str) -> (r: Option<String>)
    ensures
        match token_version(t@) {
            Some(v) => r is Some && r->0@ == v,
            None => r is None,
        },
{
    let len = t.unicode_len();
    let mut start: usize = 0;
    while start < len && t.get_char(start) == 'v'
        invariant
            start <= len,
            len == t@.len(),
            leading_v(t@, 0) == leading_v(t@, start as int),
        decreases len - start,
    {
        start = start + 1;
    }
    let mut cleaned = String::new();
    let mut seen = false;
    let mut i: usize = start;
    while i < len
        invariant
            start <= i <= len,
            len == t@.len(),
            scan_version(t@, start as int, false) == cleaned@ + scan_version(
                t@,
                i as int,
                seen,
            ),
        decreases len - i,
    {
        let c = t.get_char(i);
        if c >= '0' && c <= '9' {
            let piece = t.substring_char(i, i + 1);
            proof {
                assert(piece@ =~= seq![t@[i as int]]);
            }
            cleaned.append(piece);
            seen = true;
            i = i + 1;
        } else if c == '.' && seen {
            proof {
                reveal_strlit(".");
                assert("."@ =~= seq!['.']);
            }
            cleaned.append(".");
            i = i + 1;
        } else if seen {
            proof {
                assert(scan_version(t@, i as int, seen) =~= Seq::<char>::empty());
                assert(scan_version(t@, len as int, seen) =~= Seq::<char>::empty());
            }
            i = len;
        } else {
            i = i + 1;
        }
    }
    proof {
        assert(scan_version(t@, i as int, seen) =~= Seq::<char>::empty());
        assert(cleaned@ + Seq::<char>::empty() =~= cleaned@);
    }
    if !crate::text::contains_char(cleaned.as_str(), '.') {
        return None;
    }
    let clen = cleaned.unicode_len();
    let mut b: usize = clen;
    proof {
        assert(cleaned@.take(clen as int) =~= cleaned@);
    }
    while b > 0 && cleaned.as_str().get_char(b - 1) == '.'
        invariant
            b <= clen,
            clen == cleaned@.len(),
            trim_trailing_dots(cleaned@) == trim_trailing_dots(cleaned@.take(b as int)),
        decreases b,
    {
        proof {
            assert(cleaned@.take(b as int).last() == cleaned@[b as int - 1]);
            assert(cleaned@.take(b as int).drop_last() =~= cleaned@.take(b as int - 1));
        }
        b = b - 1;
    }
    proof {
        if b > 0 {
            assert(cleaned@.take(b as int).last() == cleaned@[b as int - 1]);
        }
        assert(trim_trailing_dots(cleaned@.take(b as int)) == cleaned@.take(b as int));
    }
    let sub = cleaned.as_str().substring_char(0, b);
    proof {
        assert(sub@ =~= cleaned@.take(b as int));
    }
    Some(sub.to_owned())
}

/// How an installed version relates to the recommended one.
#[derive(Clone, Copy, Debug, PartialEq, Eq, Structural)]
pub enum VersionCmp {
    Less,
    Equal,
    Greater,
}

/// The numeric value of a digit sequence, most significant first.
pub open spec fn digits_val(t: Seq<char>) -> int
    decreases t.len(),
{
    if t.len() == 0 {
        0
    } else {
        digits_val(t.drop_last()) * 10 + ((t.last() as u32) - 48)
    }
}

/// Whether every character is a decimal digit.
pub open spec fn all_digits(t: Seq<char>) -> bool {
    forall|i: int| 0 <= i < t.len() ==> is_digit(#[trigger] t[i])
}

/// The value of one dot-separated segment: nonempty, digits only, and
/// within the unsigned 32-bit range.
pub open spec fn parse_segment(t: Seq<char>) -> Option<int> {
    if t.len() > 0 && all_digits(t) && digits_val(t) <= u32::MAX {
        Some(digits_val(t))
    } else {
        None
    }
}

/// The numeric segments of a dotted version string, scanned from
/// position `i` with the current segment accumulated in `cur`; any
/// segment that fails to parse fails the whole string.
pub open spec fn parse_parts(s: Seq<char>, i: int, cur: Seq<char>) -> Option<Seq<int>>
    decreases s.len() - i,
{
    if i < 0 || i >= s.len() {
        match parse_segment(cur) {
            Some(v) => Some(seq![v]),
            None => None,
        }
    } else if s[i] == '.' {
        match parse_segment(cur) {
            Some(v) => match parse_parts(s, i + 1, Seq::empty()) {
                Some(rest) => Some(seq![v] + rest),
                None => None,
            },
            None => None,
        }
    } else {
        parse_parts(s, i + 1, cur.push(s[i]))
    }
}

/// Numeric comparison of two segment lists from position `i`, with
/// missing segments counting as zero.
pub open spec fn cmp_from(a: Seq<int>, b: Seq<int>, i: int) -> VersionCmp
    decreases vstd::math::max(a.len() as int, b.len() as int) - i,
{
    if i < 0 || (i >= a.len() && i >= b.len()) {
        VersionCmp::Equal
    } else {
        let x = if i < a.len() {
            a[i]
        } else {
            0
        };
        let y = if i < b.len() {
            b[i]
        } else {
            0
        };
        if x < y {
            VersionCmp::Less
        } else if x > y {
            VersionCmp::Greater
        } else {
            cmp_from(a, b, i + 1)
        }
    }
}

/// Compare two dotted version strings numerically, segment by
/// segment; nothing is said when either fails to parse.
pub open spec fn spec_compare_versions(a: Seq<char>, b: Seq<char>) -> Option<VersionCmp> {
    match (parse_parts(a, 0, Seq::empty()), parse_parts(b, 0, Seq::empty())) {
        (Some(pa), Some(pb)) => Some(cmp_from(pa, pb, 0)),
        _ => None,
    }
}

/// Digit values are nonnegative.
proof fn lemma_digits_val_nonneg(t: Seq<char>)
    requires
        all_digits(t),
    ensures
        digits_val(t) >= 0,
    decreases t.len(),
{
    if t.len() > 0 {
        assert(all_digits(t.drop_last())) by {
            assert(forall|i: int| 0 <= i < t.len() - 1 ==> is_digit(#[trigger] t[i]));
        }
        lemma_digits_val_nonneg(t.drop_last());
        assert(is_digit(t.last()));
        assert(digits_val(t.drop_last()) * 10 >= 0) by (nonlinear_arith)
            requires
                digits_val(t.drop_last()) >= 0,
        ;
    }
}

/// Parse one segment.
fn parse_segment_exec(t: &str) -> (r: Option<u32>)
    ensures
        match parse_segment(t@) {
            Some(v) => r is Some && r->0 as int == v,
            None => r is None,
        },
{
    let len = t.unicode_len();
    if len == 0 {
        return None;
    }
    let mut val: u64 = 0;
    let mut i: usize = 0;
    proof {
        assert(t@.take(0) =~= Seq::<char>::empty());
    }
    while i < len
        invariant
            i <= len,
            len == t@.len(),
            all_digits(t@.take(i as int)),
            val == digits_val(t@.take(i as int)),
            val <= u32::MAX,
        decreases len - i,
    {
        let c = t.get_char(i);
        if !(c >= '0' && c <= '9') {
            proof {
                assert(!all_digits(t@)) by {
                    assert(!is_digit(t@[i as int]));
                }
            }
            return None;
        }
        let d: u64 = ((c as u32) - 48) as u64;
        proof {
            assert(t@.take(i as int + 1).drop_last() =~= t@.take(i as int));
            assert(t@.take(i as int + 1).last() == t@[i as int]);
            assert(all_digits(t@.take(i as int + 1))) by {
                assert(forall|j: int|
                    0 <= j < i + 1 ==> is_digit(#[trigger] t@.take(i as int + 1)[j]));
            }
        }
        let next: u64 = val * 10 + d;
        if next > u32::MAX as u64 {
            proof {
                if all_digits(t@) {
                    lemma_digits_big(t@, i as int + 1);
                }
            }
            return None;
        }
        val = next;
        i = i + 1;
    }
    proof {
        assert(t@.take(len as int) =~= t@);
    }
    Some(val as u32)
}

/// Once a digit prefix exceeds the range, the whole number does.
proof fn lemma_digits_big(t: Seq<char>, k: int)
    requires
        0 <= k <= t.len(),
        all_digits(t),
        digits_val(t.take(k)) > u32::MAX,
    ensures
        digits_val(t) > u32::MAX,
    decreases t.len() - k,
{
    if k < t.len() {
        assert(t.take(k + 1).drop_last() =~= t.take(k));
        assert(t.take(k + 1).last() == t[k]);
        assert(is_digit(t[k]));
        assert(digits_val(t.take(k)) * 10 >= digits_val(t.take(k))) by (nonlinear_arith)
            requires
                digits_val(t.take(k)) > 0,
        ;
        lemma_digits_big(t, k + 1);
    } else {
        assert(t.take(k) =~= t);
    }
}

/// Parse all segments of a dotted version string.
fn parse_parts_exec(s: &str, i: usize, cur: String) -> (r: Option<Vec<u32>>)
    requires
        i <= s@.len(),
    ensures
        match parse_parts(s@, i as int, cur@) {
            Some(p) => r is Some && r->0@.map_values(|v: u32| v as int) == p,
            None => r is None,
        },
    decreases s@.len() - i,
{
    let len = s.unicode_len();
    if i == len {
        match parse_segment_exec(cur.as_str()) {
            Some(v) => {
                let mut out: Vec<u32> = Vec::new();
                out.push(v);
                proof {
                    assert(out@.map_values(|x: u32| x as int) =~= seq![v as int]);
                }
                Some(out)
            },
            None => None,
        }
    } else {
        let c = s.get_char(i);
        if c == '.' {
            match parse_segment_exec(cur.as_str()) {
                Some(v) => {
                    match parse_parts_exec(s, i + 1, String::new()) {
                        Some(rest) => {
                            let mut out: Vec<u32> = Vec::new();
                            out.push(v);
                            let mut k: usize = 0;
                            while k < rest.len()
                                invariant
                                    k <= rest@.len(),
                                    out@ =~= seq![v] + rest@.subrange(0, k as int),
                                decreases rest.len() - k,
                            {
                                out.push(rest[k]);
                                proof {
                                    assert(out@ =~= seq![v] + rest@.subrange(0, k as int + 1));
                                }
                                k = k + 1;
                            }
                            proof {
                                assert(out@ =~= seq![v] + rest@);
                                assert(out@.map_values(|x: u32| x as int) =~= seq![v as int]
                                    + rest@.map_values(|x: u32| x as int));
                            }
                            Some(out)
                        },
                        None => None,
                    }
                },
                None => None,
            }
        } else {
            let piece = s.substring_char(i, i + 1);
            let ghost prev_cur = cur@;
            let mut cur2 = cur;
            cur2.append(piece);
            proof {
                assert(piece@ =~= seq![s@[i as int]]);
                assert(cur2@ =~= prev_cur.push(s@[i as int]));
            }
            parse_parts_exec(s, i + 1, cur2)
        }
    }
}

/// Compare two dotted version strings numerically. Nothing comes back
/// when either string is not purely numeric.
pub fn compare_versions(installed: &str, recommended: &str) -> (r: Option<VersionCmp>)
    ensures
        r == spec_compare_versions(installed@, recommended@),
{
    let pa = parse_parts_exec(installed, 0, String::new());
    let pb = parse_parts_exec(recommended, 0, String::new());
    match (pa, pb) {
        (Some(a), Some(b)) => Some(cmp_parts_exec(&a, &b)),
        _ => None,
    }
}

/// Compare two parsed segment lists numerically.
fn cmp_parts_exec(a: &Vec<u32>, b: &Vec<u32>) -> (r: VersionCmp)
    ensures
        r == cmp_from(
            a@.map_values(|v: u32| v as int),
            b@.map_values(|v: u32| v as int),
            0,
        ),
{
    let ghost ga = a@.map_values(|v: u32| v as int);
    let ghost gb = b@.map_values(|v: u32| v as int);
    let a_len = a.len();
    let b_len = b.len();
    let max_len: usize = if a_len > b_len {
        a_len
    } else {
        b_len
    };
    let mut i: usize = 0;
    while i < max_len
        invariant
            i <= max_len,
            a_len == a@.len(),
            b_len == b@.len(),
            ga == a@.map_values(|v: u32| v as int),
            gb == b@.map_values(|v: u32| v as int),
            max_len == vstd::math::max(a_len as int, b_len as int),
            cmp_from(ga, gb, 0) == cmp_from(ga, gb, i as int),
        decreases max_len - i,
    {
        let x: u32 = if i < a_len {
            a[i]
        } else {
            0
        };
        let y: u32 = if i < b_len {
            b[i]
        } else {
            0
        };
        proof {
            if i < a_len {
                assert(ga[i as int] == a@[i as int] as int);
            }
            if i < b_len {
                assert(gb[i as int] == b@[i as int] as int);
            }
        }
        if x < y {
            return VersionCmp::Less;
        }
        if x > y {
            return VersionCmp::Greater;
        }
        i = i + 1;
    }
    VersionCmp::Equal
}

/// The report of a command that ran and failed: its exit status and
/// both captured streams.
pub fn run_failure_message(
    candidate: &str,
    status: &str,
    stdout: &str,
    stderr: &str,
) -> (r: String)
    ensures
        r@ == candidate@ + " exited with status "@ + status@ + ". Stdout: "@ + stdout@
            + "\nStderr: "@ + stderr@,
{
    let mut out = String::from_str(candidate);
    out.append(" exited with status ");
    out.append(status);
    out.append(". Stdout: ");
    out.append(stdout);
    out.append("\nStderr: ");
    out.append(stderr);
    out
}

/// The report of a detection command that ran and failed: its exit
/// status and the captured error stream.
pub fn detect_failure_message(candidate: &str, status: &str, stderr: &str) -> (r: String)
    ensures
        r@ == candidate@ + " exited with status "@ + status@ + ". Stderr: "@ + stderr@,
{
    let mut out = String::from_str(candidate);
    out.append(" exited with status ");
    out.append(status);
    out.append(". Stderr: ");
    out.append(stderr);
    out
}

/// The report of a candidate that could not be started at all, for a
/// reason other than not being found.
pub fn spawn_failure_message(candidate: &str, err: &str) -> (r: String)
    ensures
        r@ == candidate@ + ": "@ + err@,
{
    let mut out = String::from_str(candidate);
    out.append(": ");
    out.append(err);
    out
}

/// The report when no candidate form of a command exists.
pub fn command_not_found_message() -> (r: String)
    ensures
        r@ == "Command not found"@,
{
    String::from_str("Command not found")
}

/// The status report for one dependency, from what running its
/// detection command yielded: an older installed version is reported
/// outdated with the recommendation, a recent one installed, an
/// absent tool missing, and a failed detection reports the error.
/// An automated install is offered exactly where the platform has an
/// install command and the tool is not already good enough.
pub open spec fn spec_build_status(
    sp: DependencySpecView,
    detection: Result<Option<Seq<char>>, Seq<char>>,
    platform: Seq<char>,
) -> DependencyStatusView {
    let inst = spec_install_for(sp.install_commands, platform);
    let can = inst is Some;
    let label = match inst {
        Some(i) => sp.install_commands[i].install.display_label,
        None => None,
    };
    match detection {
        Ok(Some(v)) => {
            if spec_compare_versions(v, sp.recommended_version) == Some(VersionCmp::Less) {
                DependencyStatusView {
                    id: sp.id,
                    name: sp.name,
                    recommended_version: sp.recommended_version,
                    installed_version: Some(v),
                    status: "outdated"@,
                    message: Some("Recommended version is "@ + sp.recommended_version),
                    can_install: can,
                    install_label: label,
                }
            } else {
                DependencyStatusView {
                    id: sp.id,
                    name: sp.name,
                    recommended_version: sp.recommended_version,
                    installed_version: Some(v),
                    status: "installed"@,
                    message: None,
                    can_install: false,
                    install_label: None,
                }
            }
        },
        Ok(None) => DependencyStatusView {
            id: sp.id,
            name: sp.name,
            recommended_version: sp.recommended_version,
            installed_version: None,
            status: "missing"@,
            message: Some("Not detected in PATH"@),
            can_install: can,
            install_label: label,
        },
        Err(e) => DependencyStatusView {
            id: sp.id,
            name: sp.name,
            recommended_version: sp.recommended_version,
            installed_version: None,
            status: "error"@,
            message: Some(e),
            can_install: can,
            install_label: label,
        },
    }
}

/// The label shown on the install offer, read off the resolved
/// install command.
fn install_label_of(spec: &DependencySpec, install_idx: Option<usize>) -> (r: Option<String>)
    requires
        match install_idx {
            Some(i) => i < spec.install_commands@.len(),
            None => true,
        },
    ensures
        match install_idx {
            Some(i) => (match r {
                Some(l) => spec@.install_commands[i as int].install.display_label == Some(l@),
                None => spec@.install_commands[i as int].install.display_label is None,
            }),
            None => r is None,
        },
{
    match install_idx {
        Some(i) => {
            proof {
                assert(spec.install_commands.deep_view()[i as int]
                    == spec.install_commands@[i as int]@);
            }
            match &spec.install_commands[i].install.display_label {
                Some(l) => Some(l.clone()),
                None => None,
            }
        },
        None => None,
    }
}

/// Build the status report for one dependency from its detection
/// outcome.
pub fn build_status(
    spec: &DependencySpec,
    detection: Result<Option<String>, String>,
    platform: &str,
) -> (r: DependencyStatus)
    ensures
        r@ == spec_build_status(
            spec@,
            (match detection {
                Ok(Some(v)) => Ok::<Option<Seq<char>>, Seq<char>>(Some(v@)),
                Ok(None) => Ok::<Option<Seq<char>>, Seq<char>>(None),
                Err(e) => Err::<Option<Seq<char>>, Seq<char>>(e@),
            }),
            platform@,
        ),
{
    let install_idx = resolve_install_command(spec, platform);
    let can_install = install_idx.is_some();
    let install_label = install_label_of(spec, install_idx);
    match detection {
        Ok(Some(installed)) => {
            let cmp = compare_versions(installed.as_str(), spec.recommended_version.as_str());
            let outdated = match cmp {
                Some(VersionCmp::Less) => true,
                _ => false,
            };
            if outdated {
                DependencyStatus {
                    id: spec.id.clone(),
                    name: spec.name.clone(),
                    recommended_version: spec.recommended_version.clone(),
                    installed_version: Some(installed),
                    status: String::from_str("outdated"),
                    message: Some(
                        String::from_str("Recommended version is ").concat(
                            spec.recommended_version.as_str(),
                        ),
                    ),
                    can_install,
                    install_label,
                }
            } else {
                DependencyStatus {
                    id: spec.id.clone(),
                    name: spec.name.clone(),
                    recommended_version: spec.recommended_version.clone(),
                    installed_version: Some(installed),
                    status: String::from_str("installed"),
                    message: None,
                    can_install: false,
                    install_label: None,
                }
            }
        },
        Ok(None) => DependencyStatus {
            id: spec.id.clone(),
            name: spec.name.clone(),
            recommended_version: spec.recommended_version.clone(),
            installed_version: None,
            status: String::from_str("missing"),
            message: Some(String::from_str("Not detected in PATH")),
            can_install,
            install_label,
        },
        Err(err) => DependencyStatus {
            id: spec.id.clone(),
            name: spec.name.clone(),
            recommended_version: spec.recommended_version.clone(),
            installed_version: None,
            status: String::from_str("error"),
            message: Some(err),
            can_install,
            install_label,
        },
    }
}

} // verus!

//! Verified string utilities shared by the other modules: ASCII case
//! folding, lexicographic comparison, path-segment extraction and
//! decimal formatting.

use vstd::prelude::*;

verus! {

/// Lowercase mapping for a single character, ASCII-only: `'A'..='Z'`
/// map to `'a'..='z'`, everything else is unchanged.
pub open spec fn lower_char(c: char) -> char {
    if 'A' <= c && c <= 'Z' {
        ((c as u32) + 32) as char
    } else {
        c
    }
}

/// ASCII-lowercased form of a character sequence.
pub open spec fn lower(s: Seq<char>) -> Seq<char> {
    s.map_values(|c: char| lower_char(c))
}

/// Compare two strings for equality ignoring ASCII case.
pub fn eq_ignore_ascii_case(a: &str, b: &str) -> (r: bool)
    ensures
        r == (lower(a@) == lower(b@)),
{
    let a_len = a.unicode_len();
    let b_len = b.unicode_len();
    if a_len != b_len {
        proof {
            assert(lower(a@).len() == a@.len());
            assert(lower(b@).len() == b@.len());
        }
        return false;
    }
    let mut i: usize = 0;
    while i < a_len
        invariant
            i <= a_len,
            a_len == a@.len(),
            a_len == b@.len(),
            forall|j: int| 0 <= j < i ==> lower_char(a@[j]) == lower_char(b@[j]),
        decreases a_len - i,
    {
        let ca = a.get_char(i);
        let cb = b.get_char(i);
        let fa: char = if 'A' <= ca && ca <= 'Z' {
            (((ca as u32) + 32) as u8) as char
        } else {
            ca
        };
        let fb: char = if 'A' <= cb && cb <= 'Z' {
            (((cb as u32) + 32) as u8) as char
        } else {
            cb
        };
        if fa != fb {
            proof {
                assert(lower(a@)[i as int] == lower_char(a@[i as int]));
                assert(lower(b@)[i as int] == lower_char(b@[i as int]));
            }
            return false;
        }
        i = i + 1;
    }
    proof {
        assert(lower(a@) =~= lower(b@));
    }
    true
}

/// Compare two strings for exact equality.
pub fn str_eq(a: &str, b: &str) -> (r: bool)
    ensures
        r == (a@ == b@),
{
    let a_len = a.unicode_len();
    let b_len = b.unicode_len();
    if a_len != b_len {
        return false;
    }
    let mut i: usize = 0;
    while i < a_len
        invariant
            i <= a_len,
            a_len == a@.len(),
            a_len == b@.len(),
            forall|j: int| 0 <= j < i ==> a@[j] == b@[j],
        decreases a_len - i,
    {
        if a.get_char(i) != b.get_char(i) {
            return false;
        }
        i = i + 1;
    }
    proof {
        assert(a@ =~= b@);
    }
    true
}

/// Whether `c` occurs in `s`.
pub open spec fn spec_contains_char(s: Seq<char>, c: char) -> bool {
    exists|i: int| 0 <= i < s.len() && s[i] == c
}

pub fn contains_char(s: &str, c: char) -> (r: bool)
    ensures
        r == spec_contains_char(s@, c),
{
    let len = s.unicode_len();
    let mut i: usize = 0;
    while i < len
        invariant
            i <= len,
            len == s@.len(),
            forall|j: int| 0 <= j < i ==> s@[j] != c,
        decreases len - i,
    {
        if s.get_char(i) == c {
            return true;
        }
        i = i + 1;
    }
    false
}

/// Whether the two-character sequence `c0 c1` occurs in `s`.
pub open spec fn spec_contains_pair(s: Seq<char>, c0: char, c1: char) -> bool {
    exists|i: int| 0 <= i && i + 1 < s.len() && #[trigger] s[i] == c0 && s[i + 1] == c1
}

pub fn contains_pair(s: &str, c0: char, c1: char) -> (r: bool)
    ensures
        r == spec_contains_pair(s@, c0, c1),
{
    let len = s.unicode_len();
    if len < 2 {
        return false;
    }
    let mut i: usize = 0;
    while i + 1 < len
        invariant
            i + 1 <= len,
            len == s@.len(),
            forall|j: int| 0 <= j && j + 1 < i + 1 ==> !(#[trigger] s@[j] == c0 && s@[j + 1] == c1),
        decreases len - i,
    {
        if s.get_char(i) == c0 && s.get_char(i + 1) == c1 {
            return true;
        }
        i = i + 1;
    }
    false
}

/// Index just past the last occurrence of `c` in `s`, or 0 if `c` does
/// not occur.
pub open spec fn after_last(s: Seq<char>, c: char) -> int
    decreases s.len(),
{
    if s.len() == 0 {
        0
    } else if s[s.len() - 1] == c {
        s.len() as int
    } else {
        after_last(s.drop_last(), c)
    }
}

/// The suffix of `s` after the last occurrence of `c` (the whole of `s`
/// when `c` does not occur).
pub open spec fn suffix_after_last(s: Seq<char>, c: char) -> Seq<char> {
    s.subrange(after_last(s, c), s.len() as int)
}

/// Extract the suffix of `s` after its last occurrence of `c`.
pub fn segment_after_last(s: &str, c: char) -> (r: String)
    ensures
        r@ == suffix_after_last(s@, c),
{
    let len = s.unicode_len();
    let mut i: usize = len;
    while i > 0
        invariant
            i <= len,
            len == s@.len(),
            forall|j: int| i <= j < len ==> s@[j] != c,
        decreases i,
    {
        if s.get_char(i - 1) == c {
            proof {
                lemma_after_last_found(s@, c, i as int - 1);
            }
            let sub = s.substring_char(i, len);
            return sub.to_owned();
        }
        i = i - 1;
    }
    proof {
        lemma_after_last_none(s@, c);
    }
    let sub = s.substring_char(0, len);
    sub.to_owned()
}

/// When position `k` holds the last occurrence of `c`, `after_last` is
/// `k + 1`.
pub proof fn lemma_after_last_found(s: Seq<char>, c: char, k: int)
    requires
        0 <= k < s.len(),
        s[k] == c,
        forall|j: int| k < j < s.len() ==> s[j] != c,
    ensures
        after_last(s, c) == k + 1,
    decreases s.len(),
{
    if s.len() == 0 {
    } else if s[s.len() - 1] == c {
        assert(k == s.len() - 1);
    } else {
        lemma_after_last_found(s.drop_last(), c, k);
    }
}

/// When `c` does not occur beyond position `k`, `after_last` is at
/// most `k + 1`.
pub proof fn lemma_after_last_le(s: Seq<char>, c: char, k: int)
    requires
        -1 <= k < s.len(),
        forall|j: int| k < j < s.len() ==> s[j] != c,
    ensures
        after_last(s, c) <= k + 1,
    decreases s.len(),
{
    if s.len() == 0 {
    } else if s[s.len() - 1] == c {
        assert(k == s.len() - 1);
    } else if k == s.len() - 1 {
        lemma_after_last_le(s.drop_last(), c, k - 1);
    } else {
        lemma_after_last_le(s.drop_last(), c, k);
    }
}

/// When `c` does not occur in `s`, `after_last` is 0.
pub proof fn lemma_after_last_none(s: Seq<char>, c: char)
    requires
        forall|j: int| 0 <= j < s.len() ==> s[j] != c,
    ensures
        after_last(s, c) == 0,
    decreases s.len(),
{
    if s.len() > 0 {
        lemma_after_last_none(s.drop_last(), c);
    }
}

/// The file-name part of a path: what follows the last separator of
/// either kind.
pub open spec fn spec_file_name(p: Seq<char>) -> Seq<char> {
    suffix_after_last(suffix_after_last(p, '/'), '\\')
}

/// Extract the file-name part of a path.
pub fn file_name_of(p: &str) -> (r: String)
    ensures
        r@ == spec_file_name(p@),
{
    let tail = segment_after_last(p, '/');
    segment_after_last(tail.as_str(), '\\')
}

/// The stem of a file name: everything before the last dot, except
/// that a leading dot never splits.
pub open spec fn spec_file_stem(f: Seq<char>) -> Seq<char> {
    let a = after_last(f, '.');
    if a <= 1 {
        f
    } else {
        f.take(a - 1)
    }
}

/// Extract the stem of a file name.
pub fn file_stem_of(f: &str) -> (r: String)
    ensures
        r@ == spec_file_stem(f@),
{
    let len = f.unicode_len();
    let mut i: usize = len;
    while i > 0
        invariant
            i <= len,
            len == f@.len(),
            forall|j: int| i <= j < len ==> f@[j] != '.',
        decreases i,
    {
        if f.get_char(i - 1) == '.' {
            proof {
                lemma_after_last_found(f@, '.', i as int - 1);
            }
            if i <= 1 {
                return f.to_owned();
            }
            let sub = f.substring_char(0, i - 1);
            return sub.to_owned();
        }
        i = i - 1;
    }
    proof {
        lemma_after_last_none(f@, '.');
    }
    f.to_owned()
}

/// Strict lexicographic order on character sequences, by Unicode scalar
/// value, shorter prefixes first.
pub open spec fn seq_lt(a: Seq<char>, b: Seq<char>) -> bool
    decreases a.len(),
{
    if b.len() == 0 {
        false
    } else if a.len() == 0 {
        true
    } else if a[0] != b[0] {
        (a[0] as u32) < (b[0] as u32)
    } else {
        seq_lt(a.skip(1), b.skip(1))
    }
}

/// `seq_lt` looks only at the parts beyond a common prefix.
pub proof fn lemma_seq_lt_skip(a: Seq<char>, b: Seq<char>, i: int)
    requires
        0 <= i <= a.len(),
        i <= b.len(),
        forall|j: int| 0 <= j < i ==> a[j] == b[j],
    ensures
        seq_lt(a, b) == seq_lt(a.skip(i), b.skip(i)),
    decreases i,
{
    if i == 0 {
        assert(a.skip(0) =~= a);
        assert(b.skip(0) =~= b);
    } else {
        assert(a[0] == b[0]);
        assert(a.len() > 0 && b.len() > 0);
        assert forall|j: int| 0 <= j < i - 1 implies a.skip(1)[j] == b.skip(1)[j] by {
            assert(a[j + 1] == b[j + 1]);
        }
        lemma_seq_lt_skip(a.skip(1), b.skip(1), i - 1);
        assert(a.skip(1).skip(i - 1) =~= a.skip(i));
        assert(b.skip(1).skip(i - 1) =~= b.skip(i));
    }
}

/// The lexicographic order is irreflexive.
pub proof fn lemma_seq_lt_irrefl(a: Seq<char>)
    ensures
        !seq_lt(a, a),
    decreases a.len(),
{
    if a.len() > 0 {
        lemma_seq_lt_irrefl(a.skip(1));
    }
}

/// When neither sequence is below the other, they are equal.
pub proof fn lemma_seq_lt_total(a: Seq<char>, b: Seq<char>)
    requires
        !seq_lt(a, b),
        !seq_lt(b, a),
    ensures
        a == b,
    decreases a.len(),
{
    if a.len() == 0 || b.len() == 0 {
        assert(a =~= b);
    } else {
        assert(a[0] == b[0]) by {
            if a[0] != b[0] {
                assert((a[0] as u32) != (b[0] as u32)) by {
                    if (a[0] as u32) == (b[0] as u32) {
                        vstd::utf8::char_u32_cast(a[0], a[0] as u32);
                        vstd::utf8::char_u32_cast(b[0], b[0] as u32);
                    }
                }
            }
        }
        lemma_seq_lt_total(a.skip(1), b.skip(1));
        assert(a =~= seq![a[0]] + a.skip(1));
        assert(b =~= seq![b[0]] + b.skip(1));
    }
}

/// Transitivity of the lexicographic order.
pub proof fn lemma_seq_lt_trans(a: Seq<char>, b: Seq<char>, c: Seq<char>)
    requires
        seq_lt(a, b),
        seq_lt(b, c),
    ensures
        seq_lt(a, c),
    decreases a.len() + b.len() + c.len(),
{
    if c.len() == 0 || a.len() == 0 {
    } else if b.len() == 0 {
    } else {
        if a[0] == b[0] && b[0] == c[0] {
            lemma_seq_lt_trans(a.skip(1), b.skip(1), c.skip(1));
        }
    }
}

/// Compare two strings in the lexicographic order.
pub fn str_lt(a: &str, b: &str) -> (r: bool)
    ensures
        r == seq_lt(a@, b@),
{
    let a_len = a.unicode_len();
    let b_len = b.unicode_len();
    let min_len: usize = if a_len < b_len {
        a_len
    } else {
        b_len
    };
    let mut i: usize = 0;
    while i < min_len
        invariant
            i <= min_len,
            a_len == a@.len(),
            b_len == b@.len(),
            min_len == vstd::math::min(a_len as int, b_len as int),
            forall|j: int| 0 <= j < i ==> a@[j] == b@[j],
        decreases min_len - i,
    {
        let ca = a.get_char(i);
        let cb = b.get_char(i);
        if ca != cb {
            proof {
                lemma_seq_lt_skip(a@, b@, i as int);
                if (ca as u32) == (cb as u32) {
                    vstd::utf8::char_u32_cast(ca, ca as u32);
                    vstd::utf8::char_u32_cast(cb, cb as u32);
                }
            }
            return (ca as u32) < (cb as u32);
        }
        i = i + 1;
    }
    proof {
        lemma_seq_lt_skip(a@, b@, min_len as int);
    }
    a_len < b_len
}

/// The parts joined with a comma and a space between them.
pub open spec fn spec_join_comma(parts: Seq<Seq<char>>) -> Seq<char>
    decreases parts.len(),
{
    if parts.len() == 0 {
        Seq::empty()
    } else if parts.len() == 1 {
        parts[0]
    } else {
        parts[0] + ", "@ + spec_join_comma(parts.skip(1))
    }
}

/// Appending one more part extends the joined text by a separator and
/// the part.
proof fn lemma_join_push(parts: Seq<Seq<char>>, x: Seq<char>)
    requires
        parts.len() > 0,
    ensures
        spec_join_comma(parts.push(x)) == spec_join_comma(parts) + ", "@ + x,
    decreases parts.len(),
{
    if parts.len() == 1 {
        assert(parts.push(x)[0] == parts[0]);
        assert(parts.push(x).skip(1) =~= seq![x]);
        assert(spec_join_comma(seq![x]) == x);
    } else {
        assert(parts.push(x).skip(1) =~= parts.skip(1).push(x));
        lemma_join_push(parts.skip(1), x);
        assert(parts.push(x)[0] == parts[0]);
        assert(parts[0] + ", "@ + (spec_join_comma(parts.skip(1)) + ", "@ + x) =~= (parts[0]
            + ", "@ + spec_join_comma(parts.skip(1))) + ", "@ + x);
    }
}

/// Join strings with a comma and a space.
pub fn join_comma(parts: &Vec<String>) -> (r: String)
    ensures
        r@ == spec_join_comma(parts.deep_view()),
{
    let mut out = String::new();
    let mut i: usize = 0;
    proof {
        assert(parts.deep_view().take(0) =~= Seq::<Seq<char>>::empty());
    }
    while i < parts.len()
        invariant
            i <= parts@.len(),
            parts@.len() == parts.deep_view().len(),
            out@ == spec_join_comma(parts.deep_view().take(i as int)),
        decreases parts.len() - i,
    {
        proof {
            assert(parts.deep_view().take(i as int + 1) =~= parts.deep_view().take(
                i as int,
            ).push(parts@[i as int]@));
            if i > 0 {
                lemma_join_push(parts.deep_view().take(i as int), parts@[i as int]@);
            } else {
                assert(spec_join_comma(seq![parts@[i as int]@]) == parts@[i as int]@);
                assert(parts.deep_view().take(0).push(parts@[i as int]@) =~= seq![
                    parts@[i as int]@,
                ]);
            }
        }
        if i > 0 {
            out.append(", ");
        }
        out.append(parts[i].as_str());
        i = i + 1;
    }
    proof {
        assert(parts.deep_view().take(parts.deep_view().len() as int) =~= parts.deep_view());
    }
    out
}

/// ASCII whitespace.
pub open spec fn is_ws(c: char) -> bool {
    c == ' ' || c == '\t' || c == '\n' || c == '\r'
}

/// A sequence without its leading whitespace.
pub open spec fn drop_leading_ws(s: Seq<char>) -> Seq<char>
    decreases s.len(),
{
    if s.len() > 0 && is_ws(s[0]) {
        drop_leading_ws(s.skip(1))
    } else {
        s
    }
}

/// A sequence without its trailing whitespace.
pub open spec fn drop_trailing_ws(s: Seq<char>) -> Seq<char>
    decreases s.len(),
{
    if s.len() > 0 && is_ws(s.last()) {
        drop_trailing_ws(s.drop_last())
    } else {
        s
    }
}

/// A sequence without leading and trailing whitespace.
pub open spec fn spec_trim(s: Seq<char>) -> Seq<char> {
    drop_trailing_ws(drop_leading_ws(s))
}

proof fn lemma_drop_leading_ws_prefix(s: Seq<char>, a: int)
    requires
        0 <= a <= s.len(),
        forall|j: int| 0 <= j < a ==> is_ws(s[j]),
        a < s.len() ==> !is_ws(s[a]),
    ensures
        drop_leading_ws(s) == s.skip(a),
    decreases a,
{
    if a == 0 {
        assert(s.skip(0) =~= s);
    } else {
        assert(is_ws(s[0]));
        assert forall|j: int| 0 <= j < a - 1 implies is_ws(s.skip(1)[j]) by {
            assert(s[j + 1] == s.skip(1)[j]);
        }
        lemma_drop_leading_ws_prefix(s.skip(1), a - 1);
        assert(s.skip(1).skip(a - 1) =~= s.skip(a));
    }
}

proof fn lemma_drop_trailing_ws_suffix(s: Seq<char>, b: int)
    requires
        0 <= b <= s.len(),
        forall|j: int| b <= j < s.len() ==> is_ws(s[j]),
        b > 0 ==> !is_ws(s[b - 1]),
    ensures
        drop_trailing_ws(s) == s.take(b),
    decreases s.len() - b,
{
    if b == s.len() {
        assert(s.take(b) =~= s);
    } else {
        assert(is_ws(s.last()));
        lemma_drop_trailing_ws_suffix(s.drop_last(), b);
        assert(s.drop_last().take(b) =~= s.take(b));
    }
}

/// Strip leading and trailing ASCII whitespace.
pub fn trim_ascii(s: &str) -> (r: String)
    ensures
        r@ == spec_trim(s@),
{
    let len = s.unicode_len();
    let mut a: usize = 0;
    while a < len && is_ws_exec(s.get_char(a))
        invariant
            a <= len,
            len == s@.len(),
            forall|j: int| 0 <= j < a ==> is_ws(s@[j]),
        decreases len - a,
    {
        a = a + 1;
    }
    proof {
        lemma_drop_leading_ws_prefix(s@, a as int);
    }
    if a == len {
        proof {
            assert(s@.skip(a as int) =~= Seq::<char>::empty());
        }
        return String::new();
    }
    let mut b: usize = len;
    while b > a && is_ws_exec(s.get_char(b - 1))
        invariant
            a <= b <= len,
            len == s@.len(),
            forall|j: int| b <= j < len ==> is_ws(s@[j]),
            a < len,
            !is_ws(s@[a as int]),
            forall|j: int| 0 <= j < a ==> is_ws(s@[j]),
        decreases b,
    {
        b = b - 1;
    }
    proof {
        assert(b > a);
        let t = s@.skip(a as int);
        assert forall|j: int| b - a <= j < t.len() implies is_ws(t[j]) by {
            assert(t[j] == s@[j + a]);
        }
        assert(t[b - a - 1] == s@[b as int - 1]);
        lemma_drop_trailing_ws_suffix(t, b as int - a as int);
        assert(t.take(b as int - a as int) =~= s@.subrange(a as int, b as int));
    }
    let sub = s.substring_char(a, b);
    sub.to_owned()
}

/// Decide ASCII whitespace.
fn is_ws_exec(c: char) -> (r: bool)
    ensures
        r == is_ws(c),
{
    c == ' ' || c == '\t' || c == '\n' || c == '\r'
}

/// The character for a single decimal digit.
pub open spec fn digit_char(d: int) -> char {
    ((d + 48) as u32) as char
}

/// Decimal representation of a natural number, most significant digit
/// first, without leading zeros (except for 0 itself).
pub open spec fn dec_rep(n: nat) -> Seq<char>
    decreases n,
{
    if n < 10 {
        seq![digit_char(n as int)]
    } else {
        dec_rep(n / 10).push(digit_char((n % 10) as int))
    }
}

/// The one-character string for a digit.
fn digit_str(d: u64) -> (r: &'static str)
    requires
        d < 10,
    ensures
        r@ == seq![digit_char(d as int)],
        r@.len() == 1,
{
    proof {
        reveal_strlit("0");
        reveal_strlit("1");
        reveal_strlit("2");
        reveal_strlit("3");
        reveal_strlit("4");
        reveal_strlit("5");
        reveal_strlit("6");
        reveal_strlit("7");
        reveal_strlit("8");
        reveal_strlit("9");
    }
    let r = match d {
        0 => "0",
        1 => "1",
        2 => "2",
        3 => "3",
        4 => "4",
        5 => "5",
        6 => "6",
        7 => "7",
        8 => "8",
        _ => "9",
    };
    proof {
        assert(r@ =~= seq![digit_char(d as int)]);
    }
    r
}

/// Whether `pat` occurs in `s` at position `i`.
pub open spec fn matches_at(s: Seq<char>, pat: Seq<char>, i: int) -> bool {
    i + pat.len() <= s.len() && s.subrange(i, i + pat.len()) == pat
}

/// `s` from position `i` on, with every occurrence of `pat` replaced
/// by `sub`, left to right and without overlap.
pub open spec fn replace_from(s: Seq<char>, pat: Seq<char>, sub: Seq<char>, i: int) -> Seq<
    char,
>
    decreases s.len() - i,
{
    if pat.len() == 0 || i >= s.len() {
        Seq::empty()
    } else if matches_at(s, pat, i) {
        sub + replace_from(s, pat, sub, i + pat.len())
    } else {
        seq![s[i]] + replace_from(s, pat, sub, i + 1)
    }
}

/// `s` with every occurrence of `pat` replaced by `sub`.
pub open spec fn spec_replace(s: Seq<char>, pat: Seq<char>, sub: Seq<char>) -> Seq<char> {
    replace_from(s, pat, sub, 0)
}

/// Replace every occurrence of `pat` in `s` by `sub`, left to right.
pub fn replace_all(s: &str, pat: &str, sub: &str) -> (r: String)
    requires
        pat@.len() > 0,
    ensures
        r@ == spec_replace(s@, pat@, sub@),
{
    let len = s.unicode_len();
    let pat_len = pat.unicode_len();
    let mut out = String::new();
    let mut i: usize = 0;
    while i < len
        invariant
            i <= len,
            len == s@.len(),
            pat_len == pat@.len(),
            pat_len > 0,
            spec_replace(s@, pat@, sub@) == out@ + replace_from(s@, pat@, sub@, i as int),
        decreases len - i,
    {
        let matched = if pat_len <= len - i {
            let piece = s.substring_char(i, i + pat_len);
            str_eq(piece, pat)
        } else {
            false
        };
        if matched {
            out.append(sub);
            i = i + pat_len;
        } else {
            proof {
                assert(!matches_at(s@, pat@, i as int));
            }
            let piece = s.substring_char(i, i + 1);
            out.append(piece);
            proof {
                assert(piece@ =~= seq![s@[i as int]]);
            }
            i = i + 1;
        }
    }
    proof {
        assert(replace_from(s@, pat@, sub@, i as int) =~= Seq::<char>::empty());
        assert(out@ + Seq::<char>::empty() =~= out@);
    }
    out
}

/// Format a wide number in decimal.
pub fn u128_to_string(n: u128) -> (r: String)
    ensures
        r@ == dec_rep(n as nat),
    decreases n,
{
    if n < 10 {
        digit_str(n as u64).to_owned()
    } else {
        let high = u128_to_string(n / 10);
        let low = digit_str((n % 10) as u64);
        let r = high.concat(low);
        proof {
            assert(r@ =~= dec_rep(n as nat));
        }
        r
    }
}

/// Format a number in decimal.
pub fn u64_to_string(n: u64) -> (r: String)
    ensures
        r@ == dec_rep(n as nat),
    decreases n,
{
    if n < 10 {
        digit_str(n).to_owned()
    } else {
        let high = u64_to_string(n / 10);
        let low = digit_str(n % 10);
        let r = high.concat(low);
        proof {
            assert(r@ =~= dec_rep(n as nat));
        }
        r
    }
}

} // verus!

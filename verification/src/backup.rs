//! The backup store: listing order, retention planning and backup-name
//! validation.
//!
//! The surrounding application scans the backup root directory and
//! hands each subdirectory to this module as a [`BackupEntry`]; the
//! functions here decide the listing order and which entries a
//! retention policy removes, and the application performs the
//! deletions.

use vstd::prelude::*;

use crate::text::{
    contains_char, contains_pair, dec_rep, digit_char, lemma_seq_lt_irrefl, lemma_seq_lt_total,
    lemma_seq_lt_trans, seq_lt, spec_contains_char, spec_contains_pair, str_lt, u64_to_string,
};
use vstd::multiset::Multiset;

use chrono::Datelike;
use chrono::Timelike;

verus! {

/// One existing backup: the directory name, its absolute path, its
/// recursive size in bytes and its modification time in seconds since
/// the Unix epoch.
pub struct BackupEntry {
    pub name: String,
    pub path: String,
    pub size_bytes: u64,
    pub modified: i64,
}

/// Listing order: `a` comes no later than `b` when `a` was modified
/// more recently, with ties broken by name in descending order.
pub open spec fn entry_le(a: BackupEntry, b: BackupEntry) -> bool {
    a.modified > b.modified || (a.modified == b.modified && !seq_lt(a.name@, b.name@))
}

/// `entry_le` is reflexive.
pub proof fn lemma_entry_le_refl(a: BackupEntry)
    ensures
        entry_le(a, a),
{
    lemma_seq_lt_irrefl(a.name@);
}

/// `entry_le` is total.
pub proof fn lemma_entry_le_total(a: BackupEntry, b: BackupEntry)
    ensures
        entry_le(a, b) || entry_le(b, a),
{
    if a.modified == b.modified && seq_lt(a.name@, b.name@) && seq_lt(b.name@, a.name@) {
        lemma_seq_lt_trans(a.name@, b.name@, a.name@);
        lemma_seq_lt_irrefl(a.name@);
    }
}

/// `entry_le` is transitive.
pub proof fn lemma_entry_le_trans(a: BackupEntry, b: BackupEntry, c: BackupEntry)
    requires
        entry_le(a, b),
        entry_le(b, c),
    ensures
        entry_le(a, c),
{
    if a.modified == b.modified && b.modified == c.modified {
        if seq_lt(a.name@, c.name@) {
            if seq_lt(c.name@, b.name@) {
                lemma_seq_lt_trans(a.name@, c.name@, b.name@);
            } else {
                lemma_seq_lt_total(c.name@, b.name@);
            }
        }
    }
}

/// Newest-first order over a whole sequence of entries.
pub open spec fn entries_sorted(s: Seq<BackupEntry>) -> bool {
    forall|i: int, j: int| 0 <= i < j < s.len() ==> entry_le(#[trigger] s[i], #[trigger] s[j])
}

/// Stable insertion into a sorted sequence: the new entry goes in front
/// of the first element it precedes or equals.
pub open spec fn sorted_insert(e: BackupEntry, s: Seq<BackupEntry>) -> Seq<BackupEntry>
    decreases s.len(),
{
    if s.len() == 0 {
        seq![e]
    } else if entry_le(e, s[0]) {
        seq![e] + s
    } else {
        seq![s[0]] + sorted_insert(e, s.skip(1))
    }
}

/// Insertion sort of a sequence of entries, taken front to back.
pub open spec fn sort_entries(s: Seq<BackupEntry>) -> Seq<BackupEntry>
    decreases s.len(),
{
    if s.len() == 0 {
        Seq::empty()
    } else {
        sorted_insert(s[0], sort_entries(s.skip(1)))
    }
}

proof fn lemma_sorted_insert_len(e: BackupEntry, s: Seq<BackupEntry>)
    ensures
        sorted_insert(e, s).len() == s.len() + 1,
        sorted_insert(e, s).to_multiset() == s.to_multiset().insert(e),
    decreases s.len(),
{
    broadcast use vstd::seq_lib::group_seq_properties;

    if s.len() == 0 {
        assert(seq![e] =~= Seq::empty().push(e));
    } else if entry_le(e, s[0]) {
        lemma_multiset_insert_front(e, s);
    } else {
        let t = s.skip(1);
        lemma_sorted_insert_len(e, t);
        lemma_multiset_insert_front(s[0], sorted_insert(e, t));
        lemma_multiset_insert_front(s[0], t);
        assert(seq![s[0]] + t =~= s);
        assert(t.to_multiset().insert(e).insert(s[0]) =~= t.to_multiset().insert(
            s[0],
        ).insert(e));
    }
}

/// Prepending one element inserts it into the multiset of the rest.
proof fn lemma_multiset_insert_front(e: BackupEntry, s: Seq<BackupEntry>)
    ensures
        (seq![e] + s).to_multiset() == s.to_multiset().insert(e),
{
    broadcast use vstd::seq_lib::group_seq_properties;

    assert(seq![e] + s =~= s.insert(0, e));
    vstd::seq_lib::lemma_multiset_commutative(seq![e], s);
    assert(seq![e].to_multiset() == Multiset::<BackupEntry>::empty().insert(e)) by {
        assert(seq![e] =~= Seq::empty().push(e));
    }
    assert(Multiset::<BackupEntry>::empty().insert(e).add(s.to_multiset()) =~= s.to_multiset()
        .insert(e));
}

proof fn lemma_sorted_insert_sorted(e: BackupEntry, s: Seq<BackupEntry>)
    requires
        entries_sorted(s),
    ensures
        entries_sorted(sorted_insert(e, s)),
    decreases s.len(),
{
    if s.len() == 0 {
    } else if entry_le(e, s[0]) {
        let r = seq![e] + s;
        assert forall|i: int, j: int| 0 <= i < j < r.len() implies entry_le(r[i], r[j]) by {
            if i == 0 {
                if j == 1 {
                    assert(entry_le(e, s[0]));
                } else {
                    assert(entry_le(s[0], s[j - 1]));
                    lemma_entry_le_trans(e, s[0], s[j - 1]);
                }
            }
        }
    } else {
        assert(entries_sorted(s.skip(1)));
        lemma_sorted_insert_sorted(e, s.skip(1));
        let t = sorted_insert(e, s.skip(1));
        let r = seq![s[0]] + t;
        lemma_entry_le_total(e, s[0]);
        assert forall|i: int, j: int| 0 <= i < j < r.len() implies entry_le(r[i], r[j]) by {
            if i == 0 {
                lemma_sorted_insert_head(e, s.skip(1));
                assert(entry_le(s[0], t[0])) by {
                    if t[0] == e {
                    } else {
                        assert(t[0] == s.skip(1)[0]);
                        assert(entry_le(s[0], s[1]));
                    }
                }
                if j == 1 {
                } else {
                    assert(entry_le(t[0], t[j - 1]));
                    lemma_entry_le_trans(s[0], t[0], t[j - 1]);
                }
            }
        }
    }
}

/// The head of a stable insertion is the new entry or the old head.
proof fn lemma_sorted_insert_head(e: BackupEntry, s: Seq<BackupEntry>)
    ensures
        sorted_insert(e, s).len() > 0,
        sorted_insert(e, s)[0] == e || (s.len() > 0 && sorted_insert(e, s)[0] == s[0]),
{
}

/// Inserting into a sorted sequence whose head already precedes the new
/// entry keeps that head.
proof fn lemma_sorted_insert_of_sorted(e: BackupEntry, s: Seq<BackupEntry>)
    requires
        entries_sorted(seq![e] + s),
    ensures
        sorted_insert(e, s) == seq![e] + s,
    decreases s.len(),
{
    if s.len() == 0 {
        assert(sorted_insert(e, s) =~= seq![e] + s);
    } else {
        assert(entry_le(e, s[0])) by {
            assert((seq![e] + s)[0] == e);
            assert((seq![e] + s)[1] == s[0]);
        }
    }
}

/// Sorting an already sorted sequence leaves it unchanged.
pub proof fn lemma_sort_of_sorted(s: Seq<BackupEntry>)
    requires
        entries_sorted(s),
    ensures
        sort_entries(s) == s,
    decreases s.len(),
{
    if s.len() > 0 {
        assert(entries_sorted(s.skip(1)));
        lemma_sort_of_sorted(s.skip(1));
        assert(seq![s[0]] + s.skip(1) =~= s);
        lemma_sorted_insert_of_sorted(s[0], s.skip(1));
    }
}

/// `sort_entries` returns a sorted permutation of its input.
pub proof fn lemma_sort_entries_props(s: Seq<BackupEntry>)
    ensures
        sort_entries(s).len() == s.len(),
        sort_entries(s).to_multiset() == s.to_multiset(),
        entries_sorted(sort_entries(s)),
    decreases s.len(),
{
    broadcast use vstd::seq_lib::group_seq_properties;

    if s.len() == 0 {
        assert(entries_sorted(sort_entries(s)));
    } else {
        lemma_sort_entries_props(s.skip(1));
        lemma_sorted_insert_len(s[0], sort_entries(s.skip(1)));
        lemma_sorted_insert_sorted(s[0], sort_entries(s.skip(1)));
        lemma_multiset_insert_front(s[0], s.skip(1));
        assert(seq![s[0]] + s.skip(1) =~= s);
    }
}

/// Sort entries newest first, ties broken by name descending.
pub fn sort_backups(entries: Vec<BackupEntry>) -> (r: Vec<BackupEntry>)
    ensures
        r@ == sort_entries(entries@),
{
    let ghost orig = entries@;
    let mut rest = entries;
    let mut out: Vec<BackupEntry> = Vec::new();
    proof {
        assert(orig.subrange(0, orig.len() as int) =~= orig);
        assert(orig.skip(orig.len() as int) =~= Seq::empty());
    }
    while rest.len() > 0
        invariant
            rest@.len() <= orig.len(),
            rest@ == orig.subrange(0, rest@.len() as int),
            out@ == sort_entries(orig.skip(rest@.len() as int)),
        decreases rest.len(),
    {
        let ghost pre = rest@;
        let n = rest.len();
        let e = rest.remove(n - 1);
        proof {
            assert(e == orig[n - 1]);
            assert(rest@ =~= orig.subrange(0, n as int - 1));
        }
        insert_sorted_vec(&mut out, e);
        proof {
            let k = n as int - 1;
            assert(orig.skip(k)[0] == e);
            assert(orig.skip(k).skip(1) =~= orig.skip(k + 1));
        }
    }
    proof {
        assert(orig.skip(0) =~= orig);
    }
    out
}

/// Insert an owned entry into an already sorted vector, in front of the
/// first element it precedes or equals.
fn insert_sorted_vec(v: &mut Vec<BackupEntry>, e: BackupEntry)
    ensures
        final(v)@ == sorted_insert(e, old(v)@),
{
    let ghost orig = v@;
    let mut i: usize = 0;
    proof {
        assert(orig.skip(0) =~= orig);
        assert(orig.subrange(0, 0) + sorted_insert(e, orig) =~= sorted_insert(e, orig));
    }
    loop
        invariant
            i <= v.len(),
            v@ == orig,
            old(v)@ == orig,
            sorted_insert(e, orig) == orig.subrange(0, i as int) + sorted_insert(
                e,
                orig.skip(i as int),
            ),
        decreases v.len() - i,
    {
        if i == v.len() {
            proof {
                assert(orig.skip(i as int) =~= Seq::empty());
            }
            v.push(e);
            proof {
                assert(v@ =~= orig.subrange(0, i as int) + seq![e]);
            }
            return ;
        }
        let go_before = entry_le_exec(&e, &v[i]);
        if go_before {
            v.insert(i, e);
            proof {
                assert(sorted_insert(e, orig.skip(i as int)) == seq![e] + orig.skip(i as int));
                assert(v@ =~= orig.subrange(0, i as int) + (seq![e] + orig.skip(i as int)));
            }
            return ;
        }
        proof {
            let s = orig.skip(i as int);
            assert(s.len() > 0 && s[0] == orig[i as int]);
            assert(sorted_insert(e, s) == seq![s[0]] + sorted_insert(e, s.skip(1)));
            assert(s.skip(1) =~= orig.skip(i as int + 1));
            assert(orig.subrange(0, i as int) + (seq![orig[i as int]] + sorted_insert(
                e,
                orig.skip(i as int + 1),
            )) =~= orig.subrange(0, i as int + 1) + sorted_insert(e, orig.skip(i as int + 1)));
        }
        i = i + 1;
    }
}

/// Decide the listing order between two entries.
pub fn entry_le_exec(a: &BackupEntry, b: &BackupEntry) -> (r: bool)
    ensures
        r == entry_le(*a, *b),
{
    if a.modified > b.modified {
        true
    } else if a.modified == b.modified {
        !str_lt(a.name.as_str(), b.name.as_str())
    } else {
        false
    }
}

/// Total size of a sequence of entries, in bytes.
pub open spec fn total_size(s: Seq<BackupEntry>) -> nat
    decreases s.len(),
{
    if s.len() == 0 {
        0
    } else {
        total_size(s.drop_last()) + (s.last().size_bytes as nat)
    }
}

proof fn lemma_total_size_bound(s: Seq<BackupEntry>)
    ensures
        total_size(s) <= s.len() * (u64::MAX as nat),
    decreases s.len(),
{
    if s.len() > 0 {
        lemma_total_size_bound(s.drop_last());
        assert((s.len() - 1) * (u64::MAX as nat) + (u64::MAX as nat) == s.len() * (
        u64::MAX as nat)) by (nonlinear_arith);
    }
}

/// How many entries the count limit keeps of `len` present ones.
pub open spec fn count_kept(len: int, max_count: Option<u32>) -> int {
    match max_count {
        Some(c) => vstd::math::min(len, c as int),
        None => len,
    }
}

/// The byte budget of a size limit given in megabytes, saturating.
pub open spec fn size_budget(max_mb: u64) -> nat {
    vstd::math::min(max_mb * 1048576, u64::MAX as int) as nat
}

/// Length of the longest newest-first prefix whose total size fits the
/// budget: deleting oldest entries one at a time until under budget.
pub open spec fn fit_len(s: Seq<BackupEntry>, budget: nat) -> int
    decreases s.len(),
{
    if total_size(s) <= budget {
        s.len() as int
    } else {
        fit_len(s.drop_last(), budget)
    }
}

proof fn lemma_fit_len_props(s: Seq<BackupEntry>, budget: nat)
    ensures
        0 <= fit_len(s, budget) <= s.len(),
        total_size(s.take(fit_len(s, budget))) <= budget,
    decreases s.len(),
{
    if total_size(s) <= budget {
        assert(s.take(s.len() as int) =~= s);
    } else {
        assert(s.len() > 0);
        lemma_fit_len_props(s.drop_last(), budget);
        assert(s.drop_last().take(fit_len(s, budget)) =~= s.take(fit_len(s, budget)));
    }
}

/// How many of the sorted entries a retention policy keeps, as a prefix
/// length of the newest-first listing.
pub open spec fn retained_len(
    s: Seq<BackupEntry>,
    max_count: Option<u32>,
    max_size_bytes: Option<u64>,
) -> int {
    let k = count_kept(s.len() as int, max_count);
    match max_size_bytes {
        Some(b) => fit_len(s.take(k), b as nat),
        None => k,
    }
}

/// The entries a retention policy keeps: with no limit set, the input
/// untouched; otherwise the newest-first prefix that honours the count
/// limit first and then the size budget.
pub open spec fn spec_retention_kept(
    entries: Seq<BackupEntry>,
    max_count: Option<u32>,
    max_size_bytes: Option<u64>,
) -> Seq<BackupEntry> {
    if max_count is None && max_size_bytes is None {
        entries
    } else {
        let s = sort_entries(entries);
        s.take(retained_len(s, max_count, max_size_bytes))
    }
}

/// The entries a retention policy removes, oldest first.
pub open spec fn spec_retention_deleted(
    entries: Seq<BackupEntry>,
    max_count: Option<u32>,
    max_size_bytes: Option<u64>,
) -> Seq<BackupEntry> {
    if max_count is None && max_size_bytes is None {
        Seq::empty()
    } else {
        let s = sort_entries(entries);
        s.skip(retained_len(s, max_count, max_size_bytes)).reverse()
    }
}

/// What a retention policy does to a set of backups: `kept` is the
/// newest-first listing of what stays, `deleted` what has to be
/// removed, oldest first.
pub struct RetentionPlan {
    pub kept: Vec<BackupEntry>,
    pub deleted: Vec<BackupEntry>,
}

/// Apply a retention policy to the given backups. The count limit is
/// enforced first and the size budget second, on what the count pass
/// left. Nothing is planned for deletion when no limit is set.
pub fn apply_backup_limits(
    backups: Vec<BackupEntry>,
    max_count: Option<u32>,
    max_size_bytes: Option<u64>,
) -> (r: RetentionPlan)
    ensures
        r.kept@ == spec_retention_kept(backups@, max_count, max_size_bytes),
        r.deleted@ == spec_retention_deleted(backups@, max_count, max_size_bytes),
{
    if max_count.is_none() && max_size_bytes.is_none() {
        return RetentionPlan { kept: backups, deleted: Vec::new() };
    }
    let ghost orig = backups@;
    let mut kept = sort_backups(backups);
    let ghost s = kept@;
    let mut deleted: Vec<BackupEntry> = Vec::new();
    proof {
        assert(s.skip(s.len() as int).reverse() =~= deleted@);
        assert(s.subrange(0, s.len() as int) =~= s);
    }
    if let Some(c) = max_count {
        let limit = c as usize;
        while kept.len() > limit
            invariant
                s == sort_entries(orig),
                kept@.len() <= s.len(),
                kept@ == s.subrange(0, kept@.len() as int),
                deleted@ == s.skip(kept@.len() as int).reverse(),
                kept@.len() >= vstd::math::min(s.len() as int, limit as int),
                limit == c as usize,
            decreases kept.len(),
        {
            let ghost m = kept@.len() as int;
            let n = kept.len();
            let e = kept.remove(n - 1);
            deleted.push(e);
            proof {
                assert(kept@ =~= s.subrange(0, m - 1));
                assert(s.skip(m - 1) =~= seq![s[m - 1]] + s.skip(m));
                assert(s.skip(m - 1).reverse() =~= s.skip(m).reverse().push(s[m - 1]));
            }
        }
    }
    let ghost k1 = count_kept(s.len() as int, max_count);
    proof {
        assert(kept@.len() == k1);
    }
    if let Some(b) = max_size_bytes {
        let budget: u64 = b;
        let mut total: u128 = 0;
        let mut i: usize = 0;
        proof {
            assert(kept@.take(0) =~= Seq::<BackupEntry>::empty());
        }
        while i < kept.len()
            invariant
                i <= kept@.len(),
                total == total_size(kept@.take(i as int)),
            decreases kept.len() - i,
        {
            proof {
                lemma_total_size_bound(kept@.take(i as int + 1));
                assert(kept@.take(i as int + 1).drop_last() =~= kept@.take(i as int));
                assert(kept@.take(i as int + 1).last() == kept@[i as int]);
                assert(kept@.len() * (u64::MAX as nat) < u128::MAX) by (nonlinear_arith)
                    requires
                        kept@.len() < 0x10000000000000000,
                ;
                assert(total_size(kept@.take(i as int + 1)) <= kept@.len() * (
                u64::MAX as nat)) by {
                    lemma_total_size_take_bound(kept@, i as int + 1);
                }
            }
            total = total + (kept[i].size_bytes as u128);
            i = i + 1;
        }
        proof {
            assert(kept@.take(kept@.len() as int) =~= kept@);
        }
        while total > budget as u128
            invariant
                s == sort_entries(orig),
                kept@.len() <= k1 <= s.len(),
                kept@ == s.subrange(0, kept@.len() as int),
                deleted@ == s.skip(kept@.len() as int).reverse(),
                total == total_size(kept@),
                budget == b,
                fit_len(s.take(k1), budget as nat) == fit_len(kept@, budget as nat),
            decreases kept.len(),
        {
            proof {
                if kept@.len() == 0 {
                    assert(total_size(kept@) == 0);
                }
            }
            let ghost m = kept@.len() as int;
            let n = kept.len();
            let e = kept.remove(n - 1);
            proof {
                assert(kept@ =~= s.subrange(0, m - 1));
                assert(s.skip(m - 1) =~= seq![s[m - 1]] + s.skip(m));
                assert(s.skip(m - 1).reverse() =~= s.skip(m).reverse().push(s[m - 1]));
                assert(s.subrange(0, m).drop_last() =~= s.subrange(0, m - 1));
                assert(s.subrange(0, m).last() == s[m - 1]);
                assert(fit_len(s.subrange(0, m), budget as nat) == fit_len(
                    s.subrange(0, m - 1),
                    budget as nat,
                ));
            }
            total = total - (e.size_bytes as u128);
            deleted.push(e);
        }
        proof {
            assert(fit_len(kept@, budget as nat) == kept@.len());
            assert(s.take(k1) == s.subrange(0, k1));
        }
    }
    proof {
        assert(kept@.len() == retained_len(s, max_count, max_size_bytes));
    }
    RetentionPlan { kept, deleted }
}

/// Bound on the size of a prefix.
proof fn lemma_total_size_take_bound(s: Seq<BackupEntry>, i: int)
    requires
        0 <= i <= s.len(),
    ensures
        total_size(s.take(i)) <= s.len() * (u64::MAX as nat),
{
    lemma_total_size_bound(s.take(i));
    assert(i * (u64::MAX as nat) <= s.len() * (u64::MAX as nat)) by (nonlinear_arith)
        requires
            0 <= i <= s.len(),
    ;
}

/// A retention plan splits the sorted listing: what is kept is a
/// newest-first prefix and stays sorted, what is deleted is the rest,
/// and no deleted entry is newer than a kept one. Together with the
/// count bound below this says that the kept set is exactly the newest
/// entries of the listing.
pub proof fn lemma_retention_partition(
    entries: Seq<BackupEntry>,
    max_count: Option<u32>,
    max_size_bytes: Option<u64>,
)
    requires
        !(max_count is None && max_size_bytes is None),
    ensures
        spec_retention_kept(entries, max_count, max_size_bytes) + spec_retention_deleted(
            entries,
            max_count,
            max_size_bytes,
        ).reverse() == sort_entries(entries),
        sort_entries(entries).to_multiset() == entries.to_multiset(),
        entries_sorted(spec_retention_kept(entries, max_count, max_size_bytes)),
        forall|i: int, j: int|
            0 <= i < spec_retention_kept(entries, max_count, max_size_bytes).len() && 0 <= j
                < spec_retention_deleted(entries, max_count, max_size_bytes).len() ==> entry_le(
                #[trigger] spec_retention_kept(entries, max_count, max_size_bytes)[i],
                #[trigger] spec_retention_deleted(entries, max_count, max_size_bytes)[j],
            ),
{
    lemma_sort_entries_props(entries);
    let s = sort_entries(entries);
    let m = retained_len(s, max_count, max_size_bytes);
    lemma_retained_len_bounds(s, max_count, max_size_bytes);
    let kept = s.take(m);
    let deleted = s.skip(m).reverse();
    assert(kept + deleted.reverse() =~= s);
    assert forall|i: int, j: int| 0 <= i < j < kept.len() implies entry_le(
        #[trigger] kept[i],
        #[trigger] kept[j],
    ) by {
        assert(kept[i] == s[i] && kept[j] == s[j]);
    }
    assert forall|i: int, j: int|
        0 <= i < kept.len() && 0 <= j < deleted.len() implies entry_le(
        kept[i],
        deleted[j],
    ) by {
        assert(deleted[j] == s[s.len() - 1 - j]);
        assert(kept[i] == s[i]);
        if i < s.len() - 1 - j {
            assert(entry_le(s[i], s[s.len() - 1 - j]));
        } else {
            assert(i == s.len() - 1 - j);
            lemma_entry_le_refl(s[i]);
        }
    }
}

/// The prefix length a retention policy keeps is within bounds.
proof fn lemma_retained_len_bounds(
    s: Seq<BackupEntry>,
    max_count: Option<u32>,
    max_size_bytes: Option<u64>,
)
    ensures
        0 <= retained_len(s, max_count, max_size_bytes) <= s.len(),
        max_count is Some ==> retained_len(s, max_count, max_size_bytes)
            <= max_count.unwrap() as int,
        max_size_bytes is Some ==> total_size(
            s.take(retained_len(s, max_count, max_size_bytes)),
        ) <= max_size_bytes.unwrap(),
{
    let k = count_kept(s.len() as int, max_count);
    if let Some(b) = max_size_bytes {
        lemma_fit_len_props(s.take(k), b as nat);
        let m = fit_len(s.take(k), b as nat);
        assert(s.take(k).take(m) =~= s.take(m));
    }
}

/// With a count limit alone, the policy keeps the `maxCount` newest
/// entries of the listing and no more.
pub proof fn lemma_retention_count_limit(entries: Seq<BackupEntry>, c: u32)
    ensures
        spec_retention_kept(entries, Some(c), None).len() <= c,
        spec_retention_kept(entries, Some(c), None).len() == vstd::math::min(
            entries.len() as int,
            c as int,
        ),
{
    lemma_sort_entries_props(entries);
}

/// What a size-limited policy keeps always fits the byte budget; in
/// particular, when even the newest entry alone exceeds it, nothing at
/// all remains.
pub proof fn lemma_retention_size_limit(
    entries: Seq<BackupEntry>,
    max_count: Option<u32>,
    max_bytes: u64,
)
    ensures
        total_size(spec_retention_kept(entries, max_count, Some(max_bytes))) <= max_bytes,
{
    lemma_retained_len_bounds(sort_entries(entries), max_count, Some(max_bytes));
}

/// Applying the same retention policy again to what a first application
/// kept changes nothing: retention is idempotent.
pub proof fn lemma_retention_idempotent(
    entries: Seq<BackupEntry>,
    max_count: Option<u32>,
    max_size_bytes: Option<u64>,
)
    ensures
        spec_retention_kept(
            spec_retention_kept(entries, max_count, max_size_bytes),
            max_count,
            max_size_bytes,
        ) == spec_retention_kept(entries, max_count, max_size_bytes),
        spec_retention_deleted(
            spec_retention_kept(entries, max_count, max_size_bytes),
            max_count,
            max_size_bytes,
        ) == Seq::<BackupEntry>::empty(),
{
    if max_count is None && max_size_bytes is None {
        assert(spec_retention_deleted(entries, max_count, max_size_bytes)
            =~= Seq::<BackupEntry>::empty());
    } else {
        lemma_sort_entries_props(entries);
        let s = sort_entries(entries);
        lemma_retained_len_bounds(s, max_count, max_size_bytes);
        let m = retained_len(s, max_count, max_size_bytes);
        let kept = s.take(m);
        assert forall|i: int, j: int| 0 <= i < j < kept.len() implies entry_le(
            #[trigger] kept[i],
            #[trigger] kept[j],
        ) by {
            assert(kept[i] == s[i] && kept[j] == s[j]);
        }
        lemma_sort_of_sorted(kept);
        let k2 = count_kept(kept.len() as int, max_count);
        assert(k2 == m);
        let m2 = retained_len(kept, max_count, max_size_bytes);
        assert(m2 == m) by {
            if let Some(b) = max_size_bytes {
                assert(kept.take(k2) =~= kept);
                assert(total_size(kept) <= b);
            }
        }
        assert(spec_retention_kept(kept, max_count, max_size_bytes) =~= kept);
        assert(spec_retention_deleted(kept, max_count, max_size_bytes)
            =~= Seq::<BackupEntry>::empty());
    }
}

/// Convert a limit configured in megabytes to the byte budget the
/// retention policy works in, saturating at the largest `u64`.
pub fn mb_to_bytes(mb: u64) -> (r: u64)
    ensures
        r as nat == size_budget(mb),
{
    let wide: u128 = (mb as u128) * 1048576;
    if wide > u64::MAX as u128 {
        u64::MAX
    } else {
        wide as u64
    }
}

/// A backup may be addressed only by a plain directory name: nonempty,
/// without path separators and without a parent-directory token.
pub open spec fn spec_valid_backup_name(s: Seq<char>) -> bool {
    &&& s.len() > 0
    &&& !spec_contains_char(s, '/')
    &&& !spec_contains_char(s, '\\')
    &&& !spec_contains_pair(s, '.', '.')
}

/// Decide whether a name may address a backup.
pub fn is_valid_backup_name(name: &str) -> (r: bool)
    ensures
        r == spec_valid_backup_name(name@),
{
    !name.is_empty() && !contains_char(name, '/') && !contains_char(name, '\\')
        && !contains_pair(name, '.', '.')
}

/// Check a whole batch of backup names before anything is deleted: the
/// result is `Ok` exactly when every name is acceptable, and otherwise
/// names the first offender. Nothing may be removed unless this
/// returns `Ok`.
pub fn validate_backup_names(names: &Vec<String>) -> (r: Result<(), String>)
    ensures
        r is Ok <==> (forall|i: int|
            0 <= i < names@.len() ==> spec_valid_backup_name(#[trigger] names@[i]@)),
        r is Err ==> exists|i: int|
            {
                &&& 0 <= i < names@.len()
                &&& !spec_valid_backup_name(#[trigger] names@[i]@)
                &&& (forall|j: int| 0 <= j < i ==> spec_valid_backup_name(#[trigger] names@[j]@))
                &&& r->Err_0@ == "Invalid backup name: "@ + names@[i]@
            },
{
    let mut i: usize = 0;
    while i < names.len()
        invariant
            i <= names@.len(),
            forall|j: int| 0 <= j < i ==> spec_valid_backup_name(#[trigger] names@[j]@),
        decreases names.len() - i,
    {
        if !is_valid_backup_name(names[i].as_str()) {
            let msg = String::from_str("Invalid backup name: ").concat(names[i].as_str());
            return Err(msg);
        }
        i = i + 1;
    }
    Ok(())
}

/// The cross-device condition of a failed rename, from the raw error
/// code and kind: codes 17 and 18 always mean it; otherwise only the
/// error kind decides, and never on the native Windows filesystem API.
pub open spec fn spec_is_cross_device(
    raw_code: Option<i32>,
    kind_crosses_devices: bool,
    windows: bool,
) -> bool {
    match raw_code {
        Some(c) => c == 17 || c == 18 || (!windows && kind_crosses_devices),
        None => !windows && kind_crosses_devices,
    }
}

/// Decide whether a rename failure means source and destination live on
/// different storage volumes, so that a copy-and-delete fallback is in
/// order.
pub fn is_cross_device_link(
    raw_code: Option<i32>,
    kind_crosses_devices: bool,
    windows: bool,
) -> (r: bool)
    ensures
        r == spec_is_cross_device(raw_code, kind_crosses_devices, windows),
{
    match raw_code {
        Some(18) => true,
        Some(17) => true,
        _ => !windows && kind_crosses_devices,
    }
}

/// Containment of one canonical absolute path in another: the target is
/// the root itself or extends it at a component boundary.
pub open spec fn spec_path_within(root: Seq<char>, target: Seq<char>) -> bool {
    ||| target == root
    ||| (target.len() > root.len() && target.subrange(0, root.len() as int) == root && (
    target[root.len() as int] == '/' || target[root.len() as int] == '\\' || (root.len() > 0
        && (root[root.len() - 1] == '/' || root[root.len() - 1] == '\\'))))
}

/// Decide whether `target` lies within `root`. Both must already be in
/// canonical absolute form; this performs no symlink resolution itself.
pub fn path_within(root: &str, target: &str) -> (r: bool)
    ensures
        r == spec_path_within(root@, target@),
{
    let root_len = root.unicode_len();
    let target_len = target.unicode_len();
    if target_len < root_len {
        return false;
    }
    let mut i: usize = 0;
    while i < root_len
        invariant
            i <= root_len,
            root_len == root@.len(),
            target_len == target@.len(),
            root_len <= target_len,
            forall|j: int| 0 <= j < i ==> root@[j] == target@[j],
        decreases root_len - i,
    {
        if root.get_char(i) != target.get_char(i) {
            proof {
                assert(target@.subrange(0, root@.len() as int) != root@) by {
                    assert(target@.subrange(0, root@.len() as int)[i as int] != root@[i as int]);
                }
                assert(target@ != root@) by {
                    assert(target@[i as int] != root@[i as int]);
                }
            }
            return false;
        }
        i = i + 1;
    }
    if target_len == root_len {
        proof {
            assert(target@ =~= root@);
        }
        return true;
    }
    proof {
        assert(target@.subrange(0, root@.len() as int) =~= root@);
        assert(target@ != root@);
    }
    let boundary = target.get_char(root_len);
    if boundary == '/' || boundary == '\\' {
        return true;
    }
    if root_len > 0 {
        let tail = root.get_char(root_len - 1);
        if tail == '/' || tail == '\\' {
            return true;
        }
    }
    false
}

/// The local wall-clock time, split into calendar fields.
pub struct LocalTime {
    pub year: i64,
    pub month: u8,
    pub day: u8,
    pub hour: u8,
    pub minute: u8,
    pub second: u8,
}

/// Field ranges the clock reading is known to satisfy.
pub open spec fn local_time_wf(t: LocalTime) -> bool {
    &&& 1 <= t.month <= 12
    &&& 1 <= t.day <= 31
    &&& t.hour < 24
    &&& t.minute < 60
    &&& t.second < 60
}

/// Relies on chrono's `Local::now` and its `Datelike` / `Timelike`
/// accessors, which return the month in 1..=12, the day in 1..=31, the
/// hour below 24 and minute and second below 60.
#[verifier::external_body]
fn local_time_now() -> (t: LocalTime)
    ensures
        local_time_wf(t),
{
    let now = chrono::Local::now();
    LocalTime {
        year: now.year() as i64,
        month: now.month() as u8,
        day: now.day() as u8,
        hour: now.hour() as u8,
        minute: now.minute() as u8,
        second: now.second() as u8,
    }
}

/// A number padded with leading zeros to at least two digits.
pub open spec fn pad2(n: nat) -> Seq<char> {
    if n < 10 {
        seq!['0'] + dec_rep(n)
    } else {
        dec_rep(n)
    }
}

/// The timestamp name of a fresh backup directory: local time at second
/// granularity, date and time separated by an underscore.
pub open spec fn spec_stamp(t: LocalTime) -> Seq<char> {
    dec_rep(t.year as nat) + seq!['-'] + pad2(t.month as nat) + seq!['-'] + pad2(t.day as nat)
        + seq!['_'] + pad2(t.hour as nat) + seq!['-'] + pad2(t.minute as nat) + seq!['-'] + pad2(
        t.second as nat,
    )
}

/// Format one clock reading as a backup directory name.
fn format_stamp(t: &LocalTime) -> (r: String)
    requires
        t.year >= 0,
    ensures
        r@ == spec_stamp(*t),
{
    proof {
        reveal_strlit("-");
        reveal_strlit("_");
    }
    let mut out = u64_to_string(t.year as u64);
    out.append("-");
    out.append(pad2_exec(t.month as u64).as_str());
    out.append("-");
    out.append(pad2_exec(t.day as u64).as_str());
    out.append("_");
    out.append(pad2_exec(t.hour as u64).as_str());
    out.append("-");
    out.append(pad2_exec(t.minute as u64).as_str());
    out.append("-");
    out.append(pad2_exec(t.second as u64).as_str());
    proof {
        assert(out@ =~= spec_stamp(*t));
    }
    out
}

/// Format a number with leading zeros to at least two digits.
fn pad2_exec(n: u64) -> (r: String)
    ensures
        r@ == pad2(n as nat),
{
    proof {
        reveal_strlit("0");
        assert("0"@ =~= seq!['0']);
    }
    if n < 10 {
        let r = String::from_str("0").concat(u64_to_string(n).as_str());
        proof {
            assert(r@ =~= pad2(n as nat));
        }
        r
    } else {
        u64_to_string(n)
    }
}

/// Derive the directory name for a new backup from the current local
/// time. The name is always acceptable to [`is_valid_backup_name`];
/// two calls within the same clock second yield the same name, which
/// directory creation then reports as a hard error.
pub fn new_backup_name() -> (r: String)
    ensures
        spec_valid_backup_name(r@),
        exists|t: LocalTime| local_time_wf(t) && t.year >= 0 && r@ == spec_stamp(t),
{
    let mut t = local_time_now();
    if t.year < 0 {
        t.year = 0;
    }
    let r = format_stamp(&t);
    proof {
        lemma_stamp_valid(t);
    }
    r
}

/// Characters of a decimal representation are decimal digits.
proof fn lemma_dec_rep_chars(n: nat)
    ensures
        forall|i: int|
            0 <= i < dec_rep(n).len() ==> ('0' <= #[trigger] dec_rep(n)[i] && dec_rep(n)[i]
                <= '9'),
    decreases n,
{
    lemma_digit_char_range((n % 10) as int);
    if n < 10 {
    } else {
        lemma_dec_rep_chars(n / 10);
        assert forall|i: int|
            0 <= i < dec_rep(n).len() implies ('0' <= #[trigger] dec_rep(n)[i] && dec_rep(n)[i]
            <= '9') by {
            if i < dec_rep(n).len() - 1 {
                assert(dec_rep(n)[i] == dec_rep(n / 10)[i]);
            } else {
                assert(dec_rep(n)[i] == digit_char((n % 10) as int));
            }
        }
    }
}

/// A digit character lies between `'0'` and `'9'`.
proof fn lemma_digit_char_range(d: int)
    requires
        0 <= d <= 9,
    ensures
        '0' <= digit_char(d) <= '9',
        digit_char(d) != '/',
        digit_char(d) != '\\',
        digit_char(d) != '.',
{
    assert(digit_char(0) == '0' && digit_char(1) == '1' && digit_char(2) == '2' && digit_char(3)
        == '3' && digit_char(4) == '4' && digit_char(5) == '5' && digit_char(6) == '6'
        && digit_char(7) == '7' && digit_char(8) == '8' && digit_char(9) == '9');
}

/// A timestamp name holds only digits, dashes and an underscore, so it
/// is a valid backup name.
proof fn lemma_stamp_valid(t: LocalTime)
    requires
        t.year >= 0,
    ensures
        spec_valid_backup_name(spec_stamp(t)),
{
    let s = spec_stamp(t);
    assert forall|i: int| 0 <= i < s.len() implies (('0' <= s[i] && s[i] <= '9') || s[i] == '-'
        || s[i] == '_') by {
        lemma_stamp_chars(t, i);
    }
    assert(!spec_contains_char(s, '/')) by {
        if spec_contains_char(s, '/') {
            let i = choose|i: int| 0 <= i < s.len() && s[i] == '/';
            assert(('0' <= s[i] && s[i] <= '9') || s[i] == '-' || s[i] == '_');
        }
    }
    assert(!spec_contains_char(s, '\\')) by {
        if spec_contains_char(s, '\\') {
            let i = choose|i: int| 0 <= i < s.len() && s[i] == '\\';
            assert(('0' <= s[i] && s[i] <= '9') || s[i] == '-' || s[i] == '_');
        }
    }
    assert(!spec_contains_pair(s, '.', '.')) by {
        if spec_contains_pair(s, '.', '.') {
            let i = choose|i: int|
                0 <= i && i + 1 < s.len() && #[trigger] s[i] == '.' && s[i + 1] == '.';
            assert(('0' <= s[i] && s[i] <= '9') || s[i] == '-' || s[i] == '_');
        }
    }
    assert(s.len() > 0);
}

/// Each character of a timestamp is a digit, a dash or an underscore.
proof fn lemma_stamp_chars(t: LocalTime, i: int)
    requires
        t.year >= 0,
        0 <= i < spec_stamp(t).len(),
    ensures
        ('0' <= spec_stamp(t)[i] && spec_stamp(t)[i] <= '9') || spec_stamp(t)[i] == '-'
            || spec_stamp(t)[i] == '_',
{
    lemma_dec_rep_chars(t.year as nat);
    lemma_pad2_chars(t.month as nat);
    lemma_pad2_chars(t.day as nat);
    lemma_pad2_chars(t.hour as nat);
    lemma_pad2_chars(t.minute as nat);
    lemma_pad2_chars(t.second as nat);
}

/// Characters of a padded number are decimal digits.
proof fn lemma_pad2_chars(n: nat)
    ensures
        forall|i: int|
            0 <= i < pad2(n).len() ==> ('0' <= #[trigger] pad2(n)[i] && pad2(n)[i] <= '9'),
{
    lemma_dec_rep_chars(n);
    lemma_digit_char_range(0);
}

/// What a completed backup reports: where the installation was, where
/// it went, and what the surrounding quiesce did.
pub struct BackupResult {
    pub source_path: String,
    pub backup_path: String,
    pub closed_clients: Vec<String>,
    pub restarted_clients: Vec<String>,
    pub closing_skipped: bool,
}

/// One backup as shown to the user: name, path, size and creation time
/// rendered for display.
pub struct BackupInfo {
    pub name: String,
    pub path: String,
    pub size_bytes: u64,
    pub created_at: Option<String>,
}

/// Relies on chrono's `DateTime::to_rfc3339` on a Unix timestamp read
/// in the machine's local zone; the rendering depends on that zone, so
/// nothing is promised of the text.
#[verifier::external_body]
fn rfc3339_local(secs: i64) -> (r: Option<String>) {
    chrono::DateTime::from_timestamp(secs, 0).map(
        |utc| utc.with_timezone(&chrono::Local).to_rfc3339(),
    )
}

/// Render sorted entries for display, keeping name, path and size.
fn to_backup_info(entries: Vec<BackupEntry>) -> (r: Vec<BackupInfo>)
    ensures
        r@.len() == entries@.len(),
        forall|i: int|
            0 <= i < entries@.len() ==> {
                &&& (#[trigger] r@[i]).name == entries@[i].name
                &&& r@[i].path == entries@[i].path
                &&& r@[i].size_bytes == entries@[i].size_bytes
            },
{
    let mut out: Vec<BackupInfo> = Vec::new();
    let mut rest = entries;
    let ghost orig = rest@;
    let total = rest.len();
    proof {
        assert(orig.len() == total);
    }
    let mut i: usize = 0;
    while rest.len() > 0
        invariant
            rest@ =~= orig.skip(i as int),
            i + rest@.len() == orig.len(),
            orig.len() <= usize::MAX,
            out@.len() == i,
            forall|j: int|
                0 <= j < i ==> {
                    &&& (#[trigger] out@[j]).name == orig[j].name
                    &&& out@[j].path == orig[j].path
                    &&& out@[j].size_bytes == orig[j].size_bytes
                },
        decreases rest.len(),
    {
        let e = rest.remove(0);
        let created_at = rfc3339_local(e.modified);
        out.push(
            BackupInfo { name: e.name, path: e.path, size_bytes: e.size_bytes, created_at },
        );
        i = i + 1;
        proof {
            assert(rest@ =~= orig.skip(i as int));
        }
    }
    out
}

/// List backups for display, newest first.
pub fn list_backups(entries: Vec<BackupEntry>) -> (r: Vec<BackupInfo>)
    ensures
        r@.len() == entries@.len(),
        forall|i: int|
            0 <= i < entries@.len() ==> {
                &&& (#[trigger] r@[i]).name == sort_entries(entries@)[i].name
                &&& r@[i].path == sort_entries(entries@)[i].path
                &&& r@[i].size_bytes == sort_entries(entries@)[i].size_bytes
            },
{
    proof {
        lemma_sort_entries_props(entries@);
    }
    let sorted = sort_backups(entries);
    to_backup_info(sorted)
}

/// The name singled out for pruning before a backup move: dependency
/// caches are disposable and never carried into a backup.
pub fn is_prunable_artifact(name: &str) -> (r: bool)
    ensures
        r == (name@ == "node_modules"@),
{
    crate::text::str_eq(name, "node_modules")
}

} // verus!

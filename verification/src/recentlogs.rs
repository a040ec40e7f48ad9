//! Which log files a diagnostic bundle collects and which archived logs
//! rotation removes. The directory listing, modification times and sizes
//! are read at the program edge; times arrive as nanoseconds.
use vstd::prelude::*;
use crate::logfiles::{is_archived_log_file_name, is_archived_name, latest_log_stem, max_log_files, stem_of_latest};
use crate::text::str_eq;
use crate::workflow::lemma_order_count;

verus! {

/// `r` lists `0..n` once each.
pub open spec fn is_permutation(r: Seq<usize>, n: nat) -> bool {
    &&& r.len() == n
    &&& forall|i: int| 0 <= i < r.len() ==> #[trigger] r[i] < n
    &&& forall|i: int, j: int| 0 <= i < j < r.len() ==> r[i] != r[j]
}

/// `a` comes before `b` in a stable sort by key, newest (largest) first when
/// `descending`, oldest first otherwise.
pub open spec fn before(keys: Seq<u128>, a: usize, b: usize, descending: bool) -> bool {
    if keys[a as int] == keys[b as int] {
        a < b
    } else if descending {
        keys[a as int] > keys[b as int]
    } else {
        keys[a as int] < keys[b as int]
    }
}

/// The indices of `keys` in the order of a stable sort by key.
pub open spec fn stably_sorted(keys: Seq<u128>, r: Seq<usize>, descending: bool) -> bool {
    &&& is_permutation(r, keys.len())
    &&& forall|i: int, j: int| 0 <= i < j < r.len() ==> before(keys, #[trigger] r[i], #[trigger] r[j], descending)
}

/// The indices of `keys` in the order a stable sort by key puts them.
pub fn sort_indices(keys: &Vec<u128>, descending: bool) -> (r: Vec<usize>)
    ensures
        stably_sorted(keys@, r@, descending),
{
    let mut out: Vec<usize> = Vec::new();
    let mut k: usize = 0;
    while k < keys.len()
        invariant
            k <= keys@.len(),
            out@.len() == k,
            forall|i: int| 0 <= i < out@.len() ==> #[trigger] out@[i] < k,
            forall|i: int, j: int| 0 <= i < j < out@.len() ==> out@[i] != out@[j],
            forall|i: int, j: int|
                0 <= i < j < out@.len() ==> before(keys@, #[trigger] out@[i], #[trigger] out@[j], descending),
        decreases keys.len() - k,
    {
        // Insert k after every element that comes before it.
        let mut pos: usize = out.len();
        while pos > 0 && !before_exec(keys, out[pos - 1], k, descending)
            invariant
                k < keys@.len(),
                pos <= out@.len(),
                out@.len() == k,
                forall|i: int| 0 <= i < out@.len() ==> #[trigger] out@[i] < k,
                forall|i: int| pos <= i < out@.len() ==> !before(keys@, #[trigger] out@[i], k, descending),
            decreases pos,
        {
            pos -= 1;
        }
        proof {
            assert forall|i: int| 0 <= i < pos implies before(keys@, #[trigger] out@[i], k, descending) by {
                if i < pos - 1 {
                    assert(before(keys@, out@[i], out@[pos - 1], descending));
                    assert(before(keys@, out@[pos - 1], k, descending));
                }
            }
        }
        let ghost old_out = out@;
        out.insert(pos, k);
        proof {
            assert forall|i: int, j: int| 0 <= i < j < out@.len() implies before(
                keys@,
                #[trigger] out@[i],
                #[trigger] out@[j],
                descending,
            ) by {
                if j < pos {
                    assert(out@[i] == old_out[i] && out@[j] == old_out[j]);
                } else if j == pos {
                    assert(out@[i] == old_out[i]);
                } else if i < pos {
                    assert(out@[i] == old_out[i] && out@[j] == old_out[j - 1]);
                    assert(before(keys@, old_out[i], k, descending));
                    assert(!before(keys@, old_out[j - 1], k, descending));
                } else if i == pos {
                    assert(out@[j] == old_out[j - 1]);
                    assert(!before(keys@, old_out[j - 1], k, descending));
                    assert(old_out[j - 1] < k);
                } else {
                    assert(out@[i] == old_out[i - 1] && out@[j] == old_out[j - 1]);
                }
            }
            assert forall|i: int| 0 <= i < out@.len() implies #[trigger] out@[i] < k + 1 by {
                if i < pos {
                    assert(out@[i] == old_out[i]);
                } else if i > pos {
                    assert(out@[i] == old_out[i - 1]);
                }
            }
            assert forall|i: int, j: int| 0 <= i < j < out@.len() implies out@[i] != out@[j] by {
                if j < pos {
                    assert(out@[i] == old_out[i] && out@[j] == old_out[j]);
                } else if j == pos {
                    assert(out@[i] == old_out[i]);
                } else if i < pos {
                    assert(out@[i] == old_out[i] && out@[j] == old_out[j - 1]);
                } else if i == pos {
                    assert(out@[j] == old_out[j - 1]);
                } else {
                    assert(out@[i] == old_out[i - 1] && out@[j] == old_out[j - 1]);
                }
            }
        }
        k += 1;
    }
    out
}

fn before_exec(keys: &Vec<u128>, a: usize, b: usize, descending: bool) -> (r: bool)
    requires
        a < keys@.len(),
        b < keys@.len(),
    ensures
        r == before(keys@, a, b, descending),
{
    if keys[a] == keys[b] {
        a < b
    } else if descending {
        keys[a] > keys[b]
    } else {
        keys[a] < keys[b]
    }
}

/// A file of the log directory.
#[derive(Debug, Clone)]
pub struct LogDirEntry {
    pub file_name: String,
    /// Modification time in nanoseconds, when it could be read.
    pub modified: Option<u128>,
}

/// The entries that are archived logs of the app with this stem, other than
/// the file named `current`.
pub open spec fn archived_entries(entries: Seq<LogDirEntry>, stem: Seq<char>, current: Seq<char>) -> Seq<usize>
    decreases entries.len(),
{
    if entries.len() == 0 {
        Seq::empty()
    } else {
        let rest = archived_entries(entries.drop_last(), stem, current);
        let e = entries.last();
        if e.file_name@ != current && is_archived_name(e.file_name@, stem) {
            rest.push((entries.len() - 1) as usize)
        } else {
            rest
        }
    }
}

fn archived_indices(entries: &Vec<LogDirEntry>, stem: &str, current: &str) -> (r: Vec<usize>)
    ensures
        r@ == archived_entries(entries@, stem@, current@),
        forall|i: int| 0 <= i < r@.len() ==> #[trigger] r@[i] < entries@.len(),
        forall|i: int, j: int| 0 <= i < j < r@.len() ==> r@[i] < r@[j],
{
    let mut out: Vec<usize> = Vec::new();
    let mut i: usize = 0;
    while i < entries.len()
        invariant
            i <= entries@.len(),
            out@ == archived_entries(entries@.take(i as int), stem@, current@),
            forall|k: int| 0 <= k < out@.len() ==> #[trigger] out@[k] < i,
            forall|a: int, b: int| 0 <= a < b < out@.len() ==> out@[a] < out@[b],
        decreases entries.len() - i,
    {
        assert(entries@.take(i + 1).drop_last() =~= entries@.take(i as int));
        let name = entries[i].file_name.as_str();
        if !str_eq(name, current) && is_archived_log_file_name(name, stem) {
            out.push(i);
        }
        i += 1;
    }
    assert(entries@.take(entries.len() as int) =~= entries@);
    out
}

/// A modification time that leaves room for the unknown-time key.
pub open spec fn time_ok(e: LogDirEntry) -> bool {
    match e.modified {
        Some(t) => t < u128::MAX,
        None => true,
    }
}

/// The key a modification time sorts by: unknown times first.
pub open spec fn time_key(t: Option<u128>) -> u128 {
    match t {
        Some(x) => (x + 1) as u128,
        None => 0,
    }
}

/// The files a diagnostic bundle takes, before the size limit: the current
/// log (`None`), then, when it is an app's latest log, that app's archived
/// logs newest first (`Some(index)`), at most `max(max_files, 1)` in all.
pub fn select_recent_logs(current_name: &str, entries: &Vec<LogDirEntry>, max_files: usize) -> (r: Vec<
    Option<usize>,
>)
    requires
        forall|i: int| 0 <= i < entries@.len() ==> time_ok(#[trigger] entries@[i]),
    ensures
        r@.len() >= 1,
        r@[0] is None,
        r@.len() <= if max_files > 1 { max_files as int } else { 1 },
        stem_of_latest(current_name@) is None ==> r@.len() == 1,
        stem_of_latest(current_name@) matches Some(stem) ==> {
            let arch = archived_entries(entries@, stem, current_name@);
            &&& r@.len() == if arch.len() + 1 <= max_files { arch.len() + 1int } else if max_files > 1 {
                max_files as int
            } else {
                1
            }
            &&& forall|i: int| 1 <= i < r@.len() ==> ((#[trigger] r@[i]) matches Some(k) && arch.contains(k))
            &&& forall|i: int, j: int|
                1 <= i < j < r@.len() ==> r@[i] != r@[j]
            &&& forall|i: int, j: int|
                1 <= i < j < r@.len() ==> ((#[trigger] r@[i]) matches Some(a) && (#[trigger] r@[j]) matches Some(b) && before(
                    entries@.map_values(|e: LogDirEntry| time_key(e.modified)),
                    a,
                    b,
                    true,
                ))
            &&& forall|x: usize, i: int|
                #![trigger arch.contains(x), r@[i]]
                arch.contains(x) && !r@.contains(Some(x)) && 1 <= i < r@.len() ==> (r@[i] matches Some(y)
                    && before(entries@.map_values(|e: LogDirEntry| time_key(e.modified)), y, x, true))
        },
{
    let mut out: Vec<Option<usize>> = Vec::new();
    out.push(None);
    let limit = if max_files > 1 { max_files } else { 1 };
    let stem = match latest_log_stem(current_name) {
        Some(s) => s,
        None => {
            return out;
        },
    };
    let arch = archived_indices(entries, stem.as_str(), current_name);
    let mut keys: Vec<u128> = Vec::new();
    let mut i: usize = 0;
    while i < arch.len()
        invariant
            i <= arch@.len(),
            keys@.len() == i,
            forall|k: int| 0 <= k < arch@.len() ==> #[trigger] arch@[k] < entries@.len(),
            forall|i: int| 0 <= i < entries@.len() ==> time_ok(#[trigger] entries@[i]),
            forall|k: int| 0 <= k < i ==> #[trigger] keys@[k] == time_key(entries@[arch@[k] as int].modified),
        decreases arch.len() - i,
    {
        let key = match entries[arch[i]].modified {
            Some(t) => t + 1,
            None => 0,
        };
        keys.push(key);
        i += 1;
    }
    let order = sort_indices(&keys, true);
    let ghost all_keys = entries@.map_values(|e: LogDirEntry| time_key(e.modified));
    let mut j: usize = 0;
    while j < order.len() && out.len() < limit
        invariant
            stably_sorted(keys@, order@, true),
            keys@.len() == arch@.len(),
            forall|k: int| 0 <= k < arch@.len() ==> #[trigger] keys@[k] == time_key(entries@[arch@[k] as int].modified),
            forall|k: int| 0 <= k < arch@.len() ==> #[trigger] arch@[k] < entries@.len(),
            forall|a: int, b: int| 0 <= a < b < arch@.len() ==> arch@[a] < arch@[b],
            all_keys == entries@.map_values(|e: LogDirEntry| time_key(e.modified)),
            limit >= 1,
            j <= order@.len(),
            out@.len() == j + 1,
            out@.len() <= limit,
            out@[0] is None,
            forall|k: int| 1 <= k < out@.len() ==> (#[trigger] out@[k]) == Some(arch@[order@[k - 1] as int]),
        decreases order.len() - j,
    {
        out.push(Some(arch[order[j]]));
        j += 1;
    }
    proof {
        assert forall|a: int, b: int| 1 <= a < b < out@.len() implies out@[a] != out@[b] by {
            assert(order@[a - 1] != order@[b - 1]);
        }
        assert forall|a: int, b: int| 1 <= a < b < out@.len() implies ((#[trigger] out@[a]) matches Some(x) && (#[trigger] out@[b]) matches Some(
            y,
        ) && before(all_keys, x, y, true)) by {
            let oa = order@[a - 1];
            let ob = order@[b - 1];
            assert(before(keys@, oa, ob, true));
            assert(keys@[oa as int] == all_keys[arch@[oa as int] as int]);
            assert(keys@[ob as int] == all_keys[arch@[ob as int] as int]);
            if keys@[oa as int] == keys@[ob as int] {
                assert(oa < ob);
            }
        }
        assert forall|k: int| 1 <= k < out@.len() implies ((#[trigger] out@[k]) matches Some(x) && arch@.contains(x)) by {
            assert(arch@[order@[k - 1] as int] == out@[k]->0);
        }
        assert(order@.no_duplicates()) by {
            assert forall|a: int, b: int| 0 <= a < order@.len() && 0 <= b < order@.len() && a != b implies order@[a]
                != order@[b] by {
                if a < b {
                    assert(order@[a] != order@[b]);
                } else {
                    assert(order@[b] != order@[a]);
                }
            }
        }
        lemma_order_count(order@, arch@.len());
        assert forall|x: usize, i: int|
            #![trigger arch@.contains(x), out@[i]]
            arch@.contains(x) && !out@.contains(Some(x)) && 1 <= i < out@.len() implies (out@[i] matches Some(
            y,
        ) && before(all_keys, y, x, true)) by {
            let m = choose|m: int| 0 <= m < arch@.len() && arch@[m] == x;
            assert(order@.contains(m as usize));
            let p = choose|p: int| 0 <= p < order@.len() && order@[p] == m as usize;
            if p < j {
                assert(out@[p + 1] == Some(arch@[order@[p] as int]));
                assert(out@.contains(Some(x)));
            }
            let oa = order@[i - 1];
            assert(before(keys@, oa, order@[p], true));
            assert(keys@[oa as int] == all_keys[arch@[oa as int] as int]);
            assert(keys@[m] == all_keys[arch@[m] as int]);
            if keys@[oa as int] == keys@[m] {
                assert(oa < m);
                assert(arch@[oa as int] < arch@[m]);
            }
        }
    }
    out
}

/// Which of the selected files fit the size limit: the first always, the
/// others while the running total stays within `max_total_bytes`.
pub open spec fn size_selection(sizes: Seq<u64>, max_total: u64) -> (Seq<bool>, u64)
    decreases sizes.len(),
{
    if sizes.len() == 0 {
        (Seq::empty(), 0)
    } else {
        let (keep, total) = size_selection(sizes.drop_last(), max_total);
        let s = sizes.last();
        let sum = if total + s > u64::MAX { u64::MAX } else { (total + s) as u64 };
        if !keep.contains(true) || sum <= max_total {
            (keep.push(true), sum)
        } else {
            (keep.push(false), total)
        }
    }
}

/// The total size of the files kept, computed without any limit.
pub open spec fn kept_bytes(sizes: Seq<u64>, keep: Seq<bool>) -> int
    decreases sizes.len(),
{
    if sizes.len() == 0 || keep.len() == 0 {
        0
    } else {
        kept_bytes(sizes.drop_last(), keep.drop_last()) + if keep.last() {
            sizes.last() as int
        } else {
            0
        }
    }
}

/// The total size of all the files.
pub open spec fn all_bytes(sizes: Seq<u64>) -> int
    decreases sizes.len(),
{
    if sizes.len() == 0 {
        0
    } else {
        all_bytes(sizes.drop_last()) + sizes.last()
    }
}

proof fn lemma_kept_le_all(sizes: Seq<u64>, keep: Seq<bool>)
    requires
        keep.len() == sizes.len(),
    ensures
        0 <= kept_bytes(sizes, keep) <= all_bytes(sizes),
    decreases sizes.len(),
{
    if sizes.len() > 0 {
        lemma_kept_le_all(sizes.drop_last(), keep.drop_last());
    }
}

/// The size limit of a diagnostic bundle: the first file (the current log)
/// is always kept; every other file is kept only when the total of the kept
/// files up to and including it stays within `max_total`, and a file left
/// out would have taken that total past `max_total`. (Totals beyond what a
/// `u64` holds, where the running total saturates, are left out.)
#[verifier::spinoff_prover]
#[verifier::rlimit(50)]
pub proof fn lemma_size_limit(sizes: Seq<u64>, max_total: u64)
    requires
        all_bytes(sizes) <= u64::MAX,
    ensures
        ({
            let keep = size_selection(sizes, max_total).0;
            &&& keep.len() == sizes.len()
            &&& sizes.len() > 0 ==> keep[0]
            &&& forall|i: int|
                0 < i < sizes.len() && #[trigger] keep[i] ==> kept_bytes(sizes.take(i + 1), keep.take(i + 1))
                    <= max_total
            &&& forall|i: int|
                0 < i < sizes.len() && !#[trigger] keep[i] ==> kept_bytes(sizes.take(i), keep.take(i)) + sizes[i]
                    > max_total
        }),
    decreases sizes.len(),
{
    let (keep, total) = size_selection(sizes, max_total);
    lemma_selection_total(sizes, max_total);
    if sizes.len() > 0 {
        let p = sizes.drop_last();
        let n = sizes.len() - 1;
        let (kp, tp) = size_selection(p, max_total);
        assert(all_bytes(p) <= all_bytes(sizes));
        lemma_size_limit(p, max_total);
        lemma_selection_total(p, max_total);
        assert(keep.drop_last() =~= kp);
        assert forall|i: int| 0 <= i < n implies keep[i] == kp[i] by {}
        assert forall|i: int|
            0 < i < sizes.len() && #[trigger] keep[i] implies kept_bytes(sizes.take(i + 1), keep.take(i + 1))
                <= max_total by {
            if i < n {
                assert(sizes.take(i + 1) =~= p.take(i + 1));
                assert(keep.take(i + 1) =~= kp.take(i + 1));
                assert(kp[i]);
            } else {
                assert(sizes.take(i + 1) =~= sizes);
                assert(keep.take(i + 1) =~= keep);
                assert(sizes.drop_last() =~= p);
                lemma_kept_le_all(p, kp);
            }
        }
        assert forall|i: int|
            0 < i < sizes.len() && !#[trigger] keep[i] implies kept_bytes(sizes.take(i), keep.take(i)) + sizes[i]
                > max_total by {
            if i < n {
                assert(sizes.take(i) =~= p.take(i));
                assert(keep.take(i) =~= kp.take(i));
                assert(!kp[i]);
                assert(sizes[i] == p[i]);
            } else {
                assert(sizes.take(i) =~= p);
                assert(keep.take(i) =~= kp);
                lemma_kept_le_all(p, kp);
            }
        }
        if n == 0 {
            assert(kp.len() == 0);
        } else {
            assert(keep[0] == kp[0]);
        }
    }
}

/// The running total of the selection is the exact total of the kept
/// files while that fits in a `u64`, and at least one file is kept once
/// there is one.
#[verifier::spinoff_prover]
proof fn lemma_selection_total(sizes: Seq<u64>, max_total: u64)
    requires
        all_bytes(sizes) <= u64::MAX,
    ensures
        size_selection(sizes, max_total).0.len() == sizes.len(),
        size_selection(sizes, max_total).1 == kept_bytes(sizes, size_selection(sizes, max_total).0),
        sizes.len() > 0 ==> size_selection(sizes, max_total).0.contains(true),
    decreases sizes.len(),
{
    if sizes.len() > 0 {
        let p = sizes.drop_last();
        lemma_selection_total(p, max_total);
        let (kp, tp) = size_selection(p, max_total);
        lemma_kept_le_all(p, kp);
        let (keep, total) = size_selection(sizes, max_total);
        assert(keep.drop_last() =~= kp);
        assert(sizes.drop_last() =~= p);
        if keep.last() {
            assert(keep[keep.len() - 1]);
        } else {
            let w = choose|k: int| 0 <= k < kp.len() && kp[k] == true;
            assert(keep[w] == true);
        }
    }
}

/// Which of the selected files (in order, with their sizes) a diagnostic
/// bundle keeps.
pub fn limit_by_size(sizes: &Vec<u64>, max_total_bytes: u64) -> (r: Vec<bool>)
    ensures
        r@ == size_selection(sizes@, max_total_bytes).0,
{
    let mut keep: Vec<bool> = Vec::new();
    let mut total: u64 = 0;
    let mut any = false;
    let mut i: usize = 0;
    while i < sizes.len()
        invariant
            i <= sizes@.len(),
            (keep@, total) == size_selection(sizes@.take(i as int), max_total_bytes),
            any == keep@.contains(true),
        decreases sizes.len() - i,
    {
        assert(sizes@.take(i + 1).drop_last() =~= sizes@.take(i as int));
        let s = sizes[i];
        let sum = total.saturating_add(s);
        if !any || sum <= max_total_bytes {
            keep.push(true);
            total = sum;
            any = true;
            assert(keep@[keep@.len() - 1] == true);
        } else {
            let ghost before = keep@;
            keep.push(false);
            proof {
                let w = choose|k: int| 0 <= k < before.len() && before[k] == true;
                assert(keep@[w] == true);
            }
        }
        i += 1;
    }
    assert(sizes@.take(sizes.len() as int) =~= sizes@);
    keep
}

/// The archived logs rotation removes: when the app has more than 30, the
/// oldest beyond 30, oldest first; files whose time is unknown count as oldest.
pub fn rotation_victims(entries: &Vec<LogDirEntry>, file_stem: &str) -> (r: Vec<usize>)
    requires
        forall|i: int| 0 <= i < entries@.len() ==> time_ok(#[trigger] entries@[i]),
    ensures
        ({
            let arch = archived_entries(entries@, file_stem@, Seq::empty());
            &&& arch.len() <= max_log_files() ==> r@.len() == 0
            &&& arch.len() > max_log_files() ==> r@.len() == arch.len() - max_log_files()
            &&& forall|i: int| 0 <= i < r@.len() ==> arch.contains(#[trigger] r@[i])
            &&& forall|i: int, j: int| 0 <= i < j < r@.len() ==> r@[i] != r@[j]
            &&& forall|i: int, j: int|
                0 <= i < j < r@.len() ==> before(
                    entries@.map_values(|e: LogDirEntry| time_key(e.modified)),
                    #[trigger] r@[i],
                    #[trigger] r@[j],
                    false,
                )
            &&& forall|x: usize, i: int|
                #![trigger arch.contains(x), r@[i]]
                arch.contains(x) && !r@.contains(x) && 0 <= i < r@.len() ==> before(
                    entries@.map_values(|e: LogDirEntry| time_key(e.modified)),
                    r@[i],
                    x,
                    false,
                )
        }),
{
    let arch = archived_indices(entries, file_stem, "");
    assert(""@ =~= Seq::<char>::empty()) by {
        reveal_strlit("");
    }
    let mut out: Vec<usize> = Vec::new();
    if arch.len() <= 30 {
        return out;
    }
    let mut keys: Vec<u128> = Vec::new();
    let mut i: usize = 0;
    while i < arch.len()
        invariant
            i <= arch@.len(),
            keys@.len() == i,
            forall|k: int| 0 <= k < arch@.len() ==> #[trigger] arch@[k] < entries@.len(),
            forall|i: int| 0 <= i < entries@.len() ==> time_ok(#[trigger] entries@[i]),
            forall|k: int| 0 <= k < i ==> #[trigger] keys@[k] == time_key(entries@[arch@[k] as int].modified),
        decreases arch.len() - i,
    {
        let key = match entries[arch[i]].modified {
            Some(t) => t + 1,
            None => 0,
        };
        keys.push(key);
        i += 1;
    }
    let order = sort_indices(&keys, false);
    let ghost all_keys = entries@.map_values(|e: LogDirEntry| time_key(e.modified));
    let count = arch.len() - 30;
    let mut j: usize = 0;
    while j < count
        invariant
            stably_sorted(keys@, order@, false),
            keys@.len() == arch@.len(),
            order@.len() == arch@.len(),
            count <= arch@.len(),
            forall|k: int| 0 <= k < arch@.len() ==> #[trigger] keys@[k] == time_key(entries@[arch@[k] as int].modified),
            forall|a: int, b: int| 0 <= a < b < arch@.len() ==> arch@[a] < arch@[b],
            all_keys == entries@.map_values(|e: LogDirEntry| time_key(e.modified)),
            forall|k: int| 0 <= k < arch@.len() ==> #[trigger] arch@[k] < entries@.len(),
            j <= count,
            out@.len() == j,
            forall|k: int| 0 <= k < j ==> #[trigger] out@[k] == arch@[order@[k] as int],
        decreases count - j,
    {
        out.push(arch[order[j]]);
        j += 1;
    }
    proof {
        assert forall|a: int, b: int| 0 <= a < b < out@.len() implies out@[a] != out@[b] by {
            assert(order@[a] != order@[b]);
        }
        assert forall|a: int, b: int| 0 <= a < b < out@.len() implies before(all_keys, #[trigger] out@[a], #[trigger] out@[b], false) by {
            let oa = order@[a];
            let ob = order@[b];
            assert(before(keys@, oa, ob, false));
            if keys@[oa as int] == keys@[ob as int] {
                assert(oa < ob);
            }
        }
        assert forall|k: int| 0 <= k < out@.len() implies arch@.contains(#[trigger] out@[k]) by {
            assert(arch@[order@[k] as int] == out@[k]);
        }
        assert(order@.no_duplicates()) by {
            assert forall|a: int, b: int| 0 <= a < order@.len() && 0 <= b < order@.len() && a != b implies order@[a]
                != order@[b] by {
                if a < b {
                    assert(order@[a] != order@[b]);
                } else {
                    assert(order@[b] != order@[a]);
                }
            }
        }
        lemma_order_count(order@, arch@.len());
        assert forall|x: usize, i: int|
            #![trigger arch@.contains(x), out@[i]]
            arch@.contains(x) && !out@.contains(x) && 0 <= i < out@.len() implies before(all_keys, out@[i], x, false) by {
            let m = choose|m: int| 0 <= m < arch@.len() && arch@[m] == x;
            assert(order@.contains(m as usize));
            let p = choose|p: int| 0 <= p < order@.len() && order@[p] == m as usize;
            if p < j {
                assert(out@[p] == arch@[order@[p] as int]);
                assert(out@.contains(x));
            }
            let oa = order@[i];
            assert(before(keys@, oa, order@[p], false));
            assert(keys@[oa as int] == all_keys[arch@[oa as int] as int]);
            assert(keys@[m] == all_keys[arch@[m] as int]);
            if keys@[oa as int] == keys@[m] {
                assert(oa < m);
                assert(arch@[oa as int] < arch@[m]);
            }
        }
    }
    out
}

} // verus!

//! The process list: per-process CPU time tracking between samples, the
//! search filter and the (stable) ordering by the chosen column.
//!
//! The application enumerates the processes and reads their counters from
//! the operating system; it turns the CPU time deltas returned here into
//! percentages.
use vstd::prelude::*;
use std::collections::HashMap;
use crate::config::ProcessSortBy;
use crate::text::{chars_of, contains_chars, contains_seq, decimal, decimal_string, lowercased, to_lowercase};

verus! {

broadcast use {vstd::std_specs::hash::group_hash_axioms, vstd::string::group_string_axioms};

/// Minimum wall time between two readings of a process, in nanoseconds, for
/// its CPU usage to be computed (50 ms).
pub const MIN_SAMPLE_GAP_NS: u64 = 50_000_000;

/// One row of the process list. `cpu_pct_bits` holds the bits of the
/// non-negative CPU percentage (`f32::to_bits`), which order exactly as the
/// percentages do.
pub struct ProcessItem {
    pub pid: u32,
    pub name: String,
    pub cpu_pct_bits: u32,
    pub mem_bytes: u64,
    pub threads: u32,
}

/// The total CPU time read for a process in this sample, if it could be
/// read.
#[derive(Clone, Copy)]
pub struct CpuTimeSample {
    pub pid: u32,
    pub total_time_100ns: Option<u64>,
}

/// CPU time a process used since its previous reading, and the wall time
/// that passed between the two readings.
#[derive(Debug, Clone, Copy, PartialEq, Eq, Structural)]
pub struct CpuDelta {
    pub process_100ns: u64,
    pub wall_ns: u64,
}

/// Tracks the CPU time of each process between samples.
pub struct ProcessCollector {
    prev_times: HashMap<u32, (u64, u64)>,
    num_cores: usize,
}

/// Wall time from `earlier` to `now`, 0 when `now` is not later.
pub open spec fn elapsed(now: u64, earlier: u64) -> u64 {
    if now >= earlier {
        (now - earlier) as u64
    } else {
        0
    }
}

/// The CPU time delta of one sample against the previous readings `prev`
/// (pid to total CPU time and time of reading). It exists when the process
/// was read before, more than 50 ms ago, and its counter did not go back.
/// The idle process (pid 0) is never tracked.
pub open spec fn cpu_delta(prev: Map<u32, (u64, u64)>, s: CpuTimeSample, now: u64) -> Option<
    CpuDelta,
> {
    match s.total_time_100ns {
        None => None,
        Some(total) => if s.pid != 0 && prev.contains_key(s.pid) && elapsed(now, prev[s.pid].1)
            > MIN_SAMPLE_GAP_NS && total >= prev[s.pid].0 {
            Some(
                CpuDelta {
                    process_100ns: (total - prev[s.pid].0) as u64,
                    wall_ns: elapsed(now, prev[s.pid].1),
                },
            )
        } else {
            None
        },
    }
}

/// The readings kept for the next sample: every process of this sample
/// (but the idle process) whose CPU time could be read, with the time of
/// this sample. Processes that are gone are forgotten.
pub open spec fn readings_of(samples: Seq<CpuTimeSample>, now: u64) -> Map<u32, (u64, u64)>
    decreases samples.len(),
{
    if samples.len() == 0 {
        Map::empty()
    } else {
        let m = readings_of(samples.drop_last(), now);
        let s = samples.last();
        match s.total_time_100ns {
            Some(total) => if s.pid != 0 {
                m.insert(s.pid, (total, now))
            } else {
                m
            },
            None => m,
        }
    }
}

impl ProcessCollector {
    /// A tracker with no readings yet, for a machine with `num_cores`
    /// logical processors (at least one is assumed).
    pub fn new(num_cores: usize) -> (r: Self)
        ensures
            r.readings() == Map::<u32, (u64, u64)>::empty(),
            r.cores() == if num_cores > 1 {
                num_cores
            } else {
                1
            },
    {
        ProcessCollector {
            prev_times: HashMap::new(),
            num_cores: if num_cores > 1 {
                num_cores
            } else {
                1
            },
        }
    }

    /// The previous readings: pid to total CPU time (100 ns units) and time
    /// of reading (ns).
    pub closed spec fn readings(&self) -> Map<u32, (u64, u64)> {
        self.prev_times@
    }

    /// The number of logical processors usage is divided by.
    pub closed spec fn cores(&self) -> usize {
        self.num_cores
    }

    /// The number of logical processors usage is divided by.
    pub fn num_cores(&self) -> (r: usize)
        ensures
            r == self.cores(),
    {
        self.num_cores
    }

    /// Takes the sample of one refresh when the process table could be read
    /// (`Some`), as [`ProcessCollector::track_cpu_times`] does; when it could
    /// not (`None`), nothing is listed and the previous readings are kept for
    /// the next refresh.
    pub fn track_sample(&mut self, samples: Option<Vec<CpuTimeSample>>, now_ns: u64) -> (r: Vec<
        Option<CpuDelta>,
    >)
        ensures
            final(self).cores() == old(self).cores(),
            match samples {
                None => r@.len() == 0 && final(self).readings() == old(self).readings(),
                Some(v) => {
                    &&& r@.len() == v@.len()
                    &&& forall|i: int|
                        0 <= i < v@.len() ==> #[trigger] r@[i] == cpu_delta(
                            old(self).readings(),
                            v@[i],
                            now_ns,
                        )
                    &&& final(self).readings() == readings_of(v@, now_ns)
                },
            },
    {
        match samples {
            None => Vec::new(),
            Some(v) => self.track_cpu_times(&v, now_ns),
        }
    }

    /// Compares this sample, taken at `now_ns`, with the previous readings:
    /// returns, for each sample in order, the CPU time delta when there is
    /// one, and keeps this sample's readings for the next call.
    pub fn track_cpu_times(&mut self, samples: &Vec<CpuTimeSample>, now_ns: u64) -> (r: Vec<
        Option<CpuDelta>,
    >)
        ensures
            r@.len() == samples@.len(),
            forall|i: int|
                0 <= i < samples@.len() ==> #[trigger] r@[i] == cpu_delta(
                    old(self).readings(),
                    samples@[i],
                    now_ns,
                ),
            final(self).readings() == readings_of(samples@, now_ns),
            final(self).cores() == old(self).cores(),
    {
        let mut out: Vec<Option<CpuDelta>> = Vec::new();
        let mut seen: HashMap<u32, (u64, u64)> = HashMap::new();
        let mut i: usize = 0;
        while i < samples.len()
            invariant
                i <= samples@.len(),
                out@.len() == i,
                forall|j: int|
                    0 <= j < i ==> #[trigger] out@[j] == cpu_delta(
                        self.prev_times@,
                        samples@[j],
                        now_ns,
                    ),
                seen@ == readings_of(samples@.take(i as int), now_ns),
            decreases samples@.len() - i,
        {
            let s = samples[i];
            let mut delta: Option<CpuDelta> = None;
            if let Some(total) = s.total_time_100ns {
                if s.pid != 0 {
                    match self.prev_times.get(&s.pid) {
                        Some(prev) => {
                            let (prev_total, prev_time) = *prev;
                            let dt = if now_ns >= prev_time {
                                now_ns - prev_time
                            } else {
                                0
                            };
                            if dt > MIN_SAMPLE_GAP_NS && total >= prev_total {
                                delta = Some(
                                    CpuDelta { process_100ns: total - prev_total, wall_ns: dt },
                                );
                            }
                        },
                        None => {},
                    }
                    seen.insert(s.pid, (total, now_ns));
                }
            }
            out.push(delta);
            proof {
                assert(samples@.take(i + 1).drop_last() =~= samples@.take(i as int));
            }
            i = i + 1;
        }
        assert(samples@.take(i as int) =~= samples@);
        self.prev_times = seen;
        out
    }
}

/// The readings kept after a sample belong exactly to the processes of that
/// sample whose CPU time was read (the idle process aside): processes that
/// are gone are forgotten, so the tracker never grows with them.
pub proof fn law_readings_follow_latest_sample(samples: Seq<CpuTimeSample>, now: u64, pid: u32)
    ensures
        readings_of(samples, now).contains_key(pid) <==> (pid != 0 && exists|i: int|
            0 <= i < samples.len() && #[trigger] samples[i].pid == pid
                && samples[i].total_time_100ns is Some),
    decreases samples.len(),
{
    if samples.len() > 0 {
        let earlier = samples.drop_last();
        let last = samples.len() - 1;
        law_readings_follow_latest_sample(earlier, now, pid);
        if pid != 0 && (exists|i: int|
            0 <= i < samples.len() && #[trigger] samples[i].pid == pid
                && samples[i].total_time_100ns is Some) {
            let i = choose|i: int|
                0 <= i < samples.len() && #[trigger] samples[i].pid == pid
                    && samples[i].total_time_100ns is Some;
            if i < last {
                assert(earlier[i].pid == pid);
            }
        }
        if exists|i: int|
            0 <= i < earlier.len() && #[trigger] earlier[i].pid == pid
                && earlier[i].total_time_100ns is Some {
            let i = choose|i: int|
                0 <= i < earlier.len() && #[trigger] earlier[i].pid == pid
                    && earlier[i].total_time_100ns is Some;
            assert(samples[i].pid == pid);
        }
        if samples[last].pid == pid && samples[last].total_time_100ns is Some {
            assert(samples[last].pid == pid);
        }
    }
}

// ---------------------------------------------------------------------------
// Filter.
// ---------------------------------------------------------------------------

/// A process is listed when the filter is empty, when its lower-cased name
/// contains the lower-cased filter, or when its decimal pid contains the
/// filter.
pub open spec fn matches_filter(name: Seq<char>, pid: u32, filter: Seq<char>) -> bool {
    ||| filter.len() == 0
    ||| contains_seq(lowercased(name), lowercased(filter))
    ||| contains_seq(decimal(pid as nat), filter)
}

/// Whether the process `name` / `pid` passes the search filter.
pub fn process_matches(name: &str, pid: u32, filter: &str) -> (r: bool)
    ensures
        r == matches_filter(name@, pid, filter@),
{
    if filter.unicode_len() == 0 {
        return true;
    }
    let lower_name = chars_of(to_lowercase(name).as_str());
    let lower_filter = chars_of(to_lowercase(filter).as_str());
    if contains_chars(&lower_name, &lower_filter) {
        return true;
    }
    let pid_chars = chars_of(decimal_string(pid as u64).as_str());
    let filter_chars = chars_of(filter);
    contains_chars(&pid_chars, &filter_chars)
}

/// Whether a process of the system's process table appears in the list:
/// the idle process (pid 0) never does, any other process when it passes
/// the filter.
pub fn is_listed(name: &str, pid: u32, filter: &str) -> (r: bool)
    ensures
        r == (pid != 0 && matches_filter(name@, pid, filter@)),
{
    pid != 0 && process_matches(name, pid, filter)
}

// ---------------------------------------------------------------------------
// Ordering.
// ---------------------------------------------------------------------------

/// Lexicographic order on characters (what `String`'s `Ord` gives, since
/// UTF-8 preserves the order of code points): `a` is not after `b`.
pub open spec fn lex_le(a: Seq<char>, b: Seq<char>) -> bool
    decreases a.len(),
{
    if a.len() == 0 {
        true
    } else if b.len() == 0 {
        false
    } else if a[0] != b[0] {
        a[0] < b[0]
    } else {
        lex_le(a.drop_first(), b.drop_first())
    }
}

/// Any two names are ordered one way or the other.
pub proof fn lemma_lex_le_total(a: Seq<char>, b: Seq<char>)
    ensures
        lex_le(a, b) || lex_le(b, a),
    decreases a.len(),
{
    if a.len() > 0 && b.len() > 0 && a[0] == b[0] {
        lemma_lex_le_total(a.drop_first(), b.drop_first());
    }
}

/// The order on names is transitive.
pub proof fn lemma_lex_le_transitive(a: Seq<char>, b: Seq<char>, c: Seq<char>)
    requires
        lex_le(a, b),
        lex_le(b, c),
    ensures
        lex_le(a, c),
    decreases a.len(),
{
    if a.len() > 0 && b.len() > 0 && c.len() > 0 && a[0] == b[0] && b[0] == c[0] {
        lemma_lex_le_transitive(a.drop_first(), b.drop_first(), c.drop_first());
    }
}

/// The numeric column `by` orders by.
pub open spec fn numeric_key(p: ProcessItem, by: ProcessSortBy) -> int {
    match by {
        ProcessSortBy::Cpu => p.cpu_pct_bits as int,
        ProcessSortBy::Memory => p.mem_bytes as int,
        ProcessSortBy::Pid => p.pid as int,
        ProcessSortBy::Name => 0,
    }
}

/// `a` does not come after `b` by column `by`, in ascending order; names
/// compare lower-cased.
pub open spec fn key_le(a: ProcessItem, b: ProcessItem, by: ProcessSortBy) -> bool {
    if by == ProcessSortBy::Name {
        lex_le(lowercased(a.name@), lowercased(b.name@))
    } else {
        numeric_key(a, by) <= numeric_key(b, by)
    }
}

/// `a` may come before `b` in the list ordered by `by`, descending when
/// `desc`.
pub open spec fn in_order(a: ProcessItem, b: ProcessItem, by: ProcessSortBy, desc: bool) -> bool {
    if desc {
        key_le(b, a, by)
    } else {
        key_le(a, b, by)
    }
}

/// `a` and `b` have the same key for column `by`.
pub open spec fn same_key(a: ProcessItem, b: ProcessItem, by: ProcessSortBy) -> bool {
    key_le(a, b, by) && key_le(b, a, by)
}

proof fn lemma_in_order_total(a: ProcessItem, b: ProcessItem, by: ProcessSortBy, desc: bool)
    ensures
        in_order(a, b, by, desc) || in_order(b, a, by, desc),
{
    lemma_lex_le_total(lowercased(a.name@), lowercased(b.name@));
}

proof fn lemma_in_order_transitive(
    a: ProcessItem,
    b: ProcessItem,
    c: ProcessItem,
    by: ProcessSortBy,
    desc: bool,
)
    requires
        in_order(a, b, by, desc),
        in_order(b, c, by, desc),
    ensures
        in_order(a, c, by, desc),
{
    if by == ProcessSortBy::Name {
        if desc {
            lemma_lex_le_transitive(lowercased(c.name@), lowercased(b.name@), lowercased(a.name@));
        } else {
            lemma_lex_le_transitive(lowercased(a.name@), lowercased(b.name@), lowercased(c.name@));
        }
    }
}

/// `order` lists every index below `n` exactly once.
pub open spec fn is_permutation(order: Seq<usize>, n: nat) -> bool {
    &&& order.len() == n
    &&& forall|k: int| 0 <= k < order.len() ==> #[trigger] order[k] < n
    &&& forall|k: int, l: int|
        0 <= k < order.len() && 0 <= l < order.len() && k != l ==> #[trigger] order[k]
            != #[trigger] order[l]
}

/// The rows `items[order[..]]` are in the order asked for, and rows with the
/// same key keep their relative order (the sort is stable).
pub open spec fn sorted_stably(
    items: Seq<ProcessItem>,
    order: Seq<usize>,
    by: ProcessSortBy,
    desc: bool,
) -> bool {
    &&& forall|k: int, l: int|
        0 <= k < l < order.len() ==> in_order(
            #[trigger] items[order[k] as int],
            #[trigger] items[order[l] as int],
            by,
            desc,
        )
    &&& forall|k: int, l: int|
        0 <= k < l < order.len() && same_key(
            #[trigger] items[order[k] as int],
            #[trigger] items[order[l] as int],
            by,
        ) ==> order[k] < order[l]
}

/// Two rows hold the same values.
pub open spec fn same_item(a: ProcessItem, b: ProcessItem) -> bool {
    &&& a.pid == b.pid
    &&& a.name@ == b.name@
    &&& a.cpu_pct_bits == b.cpu_pct_bits
    &&& a.mem_bytes == b.mem_bytes
    &&& a.threads == b.threads
}

/// Whether row `a` may stay before row `b`.
fn in_order_exec(
    items: &Vec<ProcessItem>,
    lower: &Vec<Vec<char>>,
    a: usize,
    b: usize,
    by: ProcessSortBy,
    desc: bool,
) -> (r: bool)
    requires
        a < items@.len(),
        b < items@.len(),
        lower@.len() == items@.len(),
        forall|k: int| 0 <= k < items@.len() ==> #[trigger] lower@[k]@ == lowercased(items@[k].name@),
    ensures
        r == in_order(items@[a as int], items@[b as int], by, desc),
{
    let (x, y) = if desc {
        (b, a)
    } else {
        (a, b)
    };
    match by {
        ProcessSortBy::Cpu => items[x].cpu_pct_bits <= items[y].cpu_pct_bits,
        ProcessSortBy::Memory => items[x].mem_bytes <= items[y].mem_bytes,
        ProcessSortBy::Pid => items[x].pid <= items[y].pid,
        ProcessSortBy::Name => lex_le_exec(&lower[x], &lower[y]),
    }
}

/// Lexicographic comparison of two character vectors.
fn lex_le_exec(a: &Vec<char>, b: &Vec<char>) -> (r: bool)
    ensures
        r == lex_le(a@, b@),
{
    let mut i: usize = 0;
    assert(a@.skip(0) =~= a@);
    assert(b@.skip(0) =~= b@);
    while i < a.len() && i < b.len() && a[i] == b[i]
        invariant
            i <= a@.len(),
            i <= b@.len(),
            lex_le(a@, b@) == lex_le(a@.skip(i as int), b@.skip(i as int)),
        decreases a@.len() - i,
    {
        assert(a@.skip(i as int).drop_first() =~= a@.skip(i + 1));
        assert(b@.skip(i as int).drop_first() =~= b@.skip(i + 1));
        i = i + 1;
    }
    if i == a.len() {
        return true;
    }
    if i == b.len() {
        return false;
    }
    assert(a@.skip(i as int)[0] == a@[i as int]);
    assert(b@.skip(i as int)[0] == b@[i as int]);
    a[i] < b[i]
}

/// A copy of one row.
fn copy_item(p: &ProcessItem) -> (r: ProcessItem)
    ensures
        same_item(*p, r),
{
    ProcessItem {
        pid: p.pid,
        name: p.name.clone(),
        cpu_pct_bits: p.cpu_pct_bits,
        mem_bytes: p.mem_bytes,
        threads: p.threads,
    }
}

/// The positions of `items` in list order: ordered by `by` (descending when
/// `desc`), rows with equal keys in their input order.
pub fn sort_order(items: &Vec<ProcessItem>, by: ProcessSortBy, desc: bool) -> (order: Vec<usize>)
    ensures
        is_permutation(order@, items@.len()),
        sorted_stably(items@, order@, by, desc),
{
    let n = items.len();
    let mut lower: Vec<Vec<char>> = Vec::new();
    let mut k: usize = 0;
    while k < n
        invariant
            k <= n,
            n == items@.len(),
            lower@.len() == k,
            forall|j: int| 0 <= j < k ==> #[trigger] lower@[j]@ == lowercased(items@[j].name@),
        decreases n - k,
    {
        lower.push(chars_of(to_lowercase(items[k].name.as_str()).as_str()));
        k = k + 1;
    }
    let mut order: Vec<usize> = Vec::new();
    let mut i: usize = 0;
    while i < n
        invariant
            i <= n,
            n == items@.len(),
            lower@.len() == n,
            forall|j: int| 0 <= j < n ==> #[trigger] lower@[j]@ == lowercased(items@[j].name@),
            order@.len() == i,
            forall|k: int| 0 <= k < order@.len() ==> #[trigger] order@[k] < i,
            forall|k: int, l: int|
                0 <= k < order@.len() && 0 <= l < order@.len() && k != l ==> #[trigger] order@[k]
                    != #[trigger] order@[l],
            sorted_stably(items@, order@, by, desc),
        decreases n - i,
    {
        let mut p: usize = 0;
        while p < order.len() && in_order_exec(items, &lower, order[p], i, by, desc)
            invariant
                p <= order@.len(),
                i < n,
                n == items@.len(),
                lower@.len() == n,
                forall|j: int| 0 <= j < n ==> #[trigger] lower@[j]@ == lowercased(items@[j].name@),
                forall|k: int| 0 <= k < order@.len() ==> #[trigger] order@[k] < i,
                forall|q: int|
                    0 <= q < p ==> in_order(#[trigger] items@[order@[q] as int], items@[i as int], by, desc),
            decreases order@.len() - p,
        {
            p = p + 1;
        }
        let ghost old_order = order@;
        proof {
            // Every row from p on must come after row i.
            assert forall|q: int| p <= q < old_order.len() implies !in_order(
                #[trigger] items@[old_order[q] as int],
                items@[i as int],
                by,
                desc,
            ) by {
                if in_order(items@[old_order[q] as int], items@[i as int], by, desc) {
                    if q > p {
                        assert(in_order(
                            items@[old_order[p as int] as int],
                            items@[old_order[q] as int],
                            by,
                            desc,
                        ));
                        lemma_in_order_transitive(
                            items@[old_order[p as int] as int],
                            items@[old_order[q] as int],
                            items@[i as int],
                            by,
                            desc,
                        );
                    }
                }
            }
        }
        order.insert(p, i);
        proof {
            let new_order = order@;
            assert(new_order == old_order.insert(p as int, i));
            assert forall|k: int| 0 <= k < new_order.len() implies #[trigger] new_order[k] < i + 1 by {
                if k < p {
                    assert(new_order[k] == old_order[k]);
                } else if k > p {
                    assert(new_order[k] == old_order[k - 1]);
                }
            }
            assert forall|k: int, l: int|
                0 <= k < new_order.len() && 0 <= l < new_order.len() && k != l implies #[trigger] new_order[k]
                    != #[trigger] new_order[l] by {
                let ok = if k < p { k } else if k > p { k - 1 } else { -1 };
                let ol = if l < p { l } else if l > p { l - 1 } else { -1 };
                if ok >= 0 {
                    assert(new_order[k] == old_order[ok]);
                }
                if ol >= 0 {
                    assert(new_order[l] == old_order[ol]);
                }
            }
            assert forall|k: int, l: int| 0 <= k < l < new_order.len() implies in_order(
                #[trigger] items@[new_order[k] as int],
                #[trigger] items@[new_order[l] as int],
                by,
                desc,
            ) by {
                if k < p && l < p {
                    assert(new_order[k] == old_order[k] && new_order[l] == old_order[l]);
                } else if k < p && l == p {
                    assert(new_order[k] == old_order[k]);
                } else if k < p && l > p {
                    assert(new_order[k] == old_order[k] && new_order[l] == old_order[l - 1]);
                } else if k == p {
                    assert(new_order[l] == old_order[l - 1]);
                    lemma_in_order_total(items@[i as int], items@[old_order[l - 1] as int], by, desc);
                } else {
                    assert(new_order[k] == old_order[k - 1] && new_order[l] == old_order[l - 1]);
                }
            }
            assert forall|k: int, l: int|
                0 <= k < l < new_order.len() && same_key(
                    #[trigger] items@[new_order[k] as int],
                    #[trigger] items@[new_order[l] as int],
                    by,
                ) implies new_order[k] < new_order[l] by {
                if k < p && l < p {
                    assert(new_order[k] == old_order[k] && new_order[l] == old_order[l]);
                } else if k < p && l == p {
                    assert(new_order[k] == old_order[k]);
                } else if k < p && l > p {
                    assert(new_order[k] == old_order[k] && new_order[l] == old_order[l - 1]);
                } else if k == p {
                    assert(new_order[l] == old_order[l - 1]);
                    // Equal keys: row l would be in order before row i.
                    assert(in_order(items@[old_order[l - 1] as int], items@[i as int], by, desc));
                } else {
                    assert(new_order[k] == old_order[k - 1] && new_order[l] == old_order[l - 1]);
                }
            }
        }
        i = i + 1;
    }
    order
}

/// The listed rows in order: by `by`, descending when `desc`, rows with equal
/// keys in their input order (what a stable sort by that column gives).
pub fn sort_processes(items: &Vec<ProcessItem>, by: ProcessSortBy, desc: bool) -> (r: Vec<
    ProcessItem,
>)
    ensures
        exists|order: Seq<usize>|
            {
                &&& is_permutation(order, items@.len())
                &&& sorted_stably(items@, order, by, desc)
                &&& r@.len() == order.len()
                &&& forall|k: int|
                    0 <= k < order.len() ==> #[trigger] same_item(r@[k], items@[order[k] as int])
            },
{
    let order = sort_order(items, by, desc);
    let mut r: Vec<ProcessItem> = Vec::new();
    let mut k: usize = 0;
    while k < order.len()
        invariant
            k <= order@.len(),
            is_permutation(order@, items@.len()),
            r@.len() == k,
            forall|j: int| 0 <= j < k ==> #[trigger] same_item(r@[j], items@[order@[j] as int]),
        decreases order@.len() - k,
    {
        r.push(copy_item(&items[order[k]]));
        k = k + 1;
    }
    assert(r@.len() == order@.len());
    r
}


/// A stably sorted list is ordered by the chosen column: CPU usage, memory
/// and pid numerically, the name lower-cased and character by character;
/// highest first when `desc`, lowest first otherwise; and rows whose column
/// values are equal keep their input order.
pub proof fn law_sorted_by_column(items: Seq<ProcessItem>, order: Seq<usize>, by: ProcessSortBy, desc: bool, k: int, l: int)
    requires
        is_permutation(order, items.len()),
        sorted_stably(items, order, by, desc),
        0 <= k < l < order.len(),
    ensures
        ({
            let a = items[order[k] as int];
            let b = items[order[l] as int];
            &&& by == ProcessSortBy::Cpu ==> (if desc {
                a.cpu_pct_bits >= b.cpu_pct_bits
            } else {
                a.cpu_pct_bits <= b.cpu_pct_bits
            })
            &&& by == ProcessSortBy::Memory ==> (if desc {
                a.mem_bytes >= b.mem_bytes
            } else {
                a.mem_bytes <= b.mem_bytes
            })
            &&& by == ProcessSortBy::Pid ==> (if desc {
                a.pid >= b.pid
            } else {
                a.pid <= b.pid
            })
            &&& by == ProcessSortBy::Name ==> (if desc {
                lex_le(lowercased(b.name@), lowercased(a.name@))
            } else {
                lex_le(lowercased(a.name@), lowercased(b.name@))
            })
            &&& (by == ProcessSortBy::Cpu && a.cpu_pct_bits == b.cpu_pct_bits) ==> order[k] < order[l]
            &&& (by == ProcessSortBy::Memory && a.mem_bytes == b.mem_bytes) ==> order[k] < order[l]
            &&& (by == ProcessSortBy::Pid && a.pid == b.pid) ==> order[k] < order[l]
            &&& (by == ProcessSortBy::Name && lowercased(a.name@) == lowercased(b.name@)) ==> order[k] < order[l]
        }),
{
    let a = items[order[k] as int];
    let b = items[order[l] as int];
    assert(in_order(a, b, by, desc));
    if by == ProcessSortBy::Name && lowercased(a.name@) == lowercased(b.name@) {
        lemma_lex_le_total(lowercased(a.name@), lowercased(b.name@));
        assert(same_key(a, b, by));
    }
    if by != ProcessSortBy::Name && numeric_key(a, by) == numeric_key(b, by) {
        assert(same_key(a, b, by));
    }
}

/// The filter lists every process when it is empty; otherwise a process is
/// listed when its lower-cased name contains the lower-cased filter or its
/// decimal pid contains the filter, and only then. The idle process (pid 0)
/// is never listed.
pub proof fn law_listed_processes(name: Seq<char>, pid: u32, filter: Seq<char>)
    ensures
        pid == 0 ==> !(pid != 0 && matches_filter(name, pid, filter)),
        filter.len() == 0 ==> matches_filter(name, pid, filter),
        filter.len() > 0 ==> (matches_filter(name, pid, filter) <==> (contains_seq(
            lowercased(name),
            lowercased(filter),
        ) || contains_seq(decimal(pid as nat), filter))),
{
}

/// A CPU-time delta exists only for a process read before (not the idle
/// process), more than 50 ms earlier, whose counter did not go back; it is
/// then the counter's growth and the wall time since that reading.
pub proof fn law_cpu_delta(prev: Map<u32, (u64, u64)>, s: CpuTimeSample, now: u64)
    ensures
        cpu_delta(prev, s, now) is Some <==> (s.pid != 0 && prev.contains_key(s.pid)
            && s.total_time_100ns is Some && now >= prev[s.pid].1 && now - prev[s.pid].1
            > MIN_SAMPLE_GAP_NS && s.total_time_100ns->0 >= prev[s.pid].0),
        cpu_delta(prev, s, now) is Some ==> cpu_delta(prev, s, now)->0.process_100ns
            == s.total_time_100ns->0 - prev[s.pid].0 && cpu_delta(prev, s, now)->0.wall_ns == now
            - prev[s.pid].1,
{
}

} // verus!

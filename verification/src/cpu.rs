//! CPU usage bookkeeping: the tick counts of each logical processor between
//! two readings of the system's processor times. The application reads the
//! counters and turns the tick counts into percentages.
use vstd::prelude::*;

verus! {

/// Cumulative times of one logical processor, in 100 ns units, as the
/// system reports them; kernel time includes idle time.
#[derive(Debug, Clone, Copy, PartialEq, Eq, Structural)]
pub struct ProcessorTimes {
    pub idle_time: i64,
    pub kernel_time: i64,
    pub user_time: i64,
}

/// Ticks of one core (or of the whole CPU) between two readings: all of
/// them, the idle ones, and the busy ones (counted only when there were
/// ticks at all).
#[derive(Debug, Clone, Copy, PartialEq, Eq, Structural)]
pub struct CoreTicks {
    pub total: i64,
    pub idle: i64,
    pub busy: i64,
}

/// The ticks of every core, in order, and of the whole CPU.
pub struct CpuTicks {
    pub cores: Vec<CoreTicks>,
    pub all: CoreTicks,
}

/// Ticks of a core between readings `p` and `c`: kernel plus user time.
pub open spec fn core_total(p: ProcessorTimes, c: ProcessorTimes) -> int {
    (c.kernel_time - p.kernel_time) + (c.user_time - p.user_time)
}

/// Idle ticks of a core between readings `p` and `c`.
pub open spec fn core_idle(p: ProcessorTimes, c: ProcessorTimes) -> int {
    c.idle_time - p.idle_time
}

/// Busy ticks: all but the idle ones, 0 when there were no ticks.
pub open spec fn busy_of(total: int, idle: int) -> int {
    if total > 0 {
        total - idle
    } else {
        0
    }
}

/// `v` fits a signed 64-bit integer.
pub open spec fn in_i64(v: int) -> bool {
    i64::MIN <= v <= i64::MAX
}

/// Ticks of the first `k` cores.
pub open spec fn sum_total(prev: Seq<ProcessorTimes>, cur: Seq<ProcessorTimes>, k: nat) -> int
    decreases k,
{
    if k == 0 {
        0
    } else {
        sum_total(prev, cur, (k - 1) as nat) + core_total(prev[k - 1], cur[k - 1])
    }
}

/// Idle ticks of the first `k` cores.
pub open spec fn sum_idle(prev: Seq<ProcessorTimes>, cur: Seq<ProcessorTimes>, k: nat) -> int
    decreases k,
{
    if k == 0 {
        0
    } else {
        sum_idle(prev, cur, (k - 1) as nat) + core_idle(prev[k - 1], cur[k - 1])
    }
}

/// Every difference and sum of one core fits 64 bits.
pub open spec fn core_fits(p: ProcessorTimes, c: ProcessorTimes) -> bool {
    &&& in_i64(c.kernel_time - p.kernel_time)
    &&& in_i64(c.user_time - p.user_time)
    &&& in_i64(core_total(p, c))
    &&& in_i64(core_idle(p, c))
    &&& in_i64(busy_of(core_total(p, c), core_idle(p, c)))
}

/// The tick counts of two readings of the same cores fit 64 bits: each
/// core's, every running sum over the cores, and the CPU's busy ticks.
pub open spec fn ticks_fit(prev: Seq<ProcessorTimes>, cur: Seq<ProcessorTimes>) -> bool {
    prev.len() == cur.len() ==> {
        &&& forall|i: int| 0 <= i < prev.len() ==> core_fits(#[trigger] prev[i], cur[i])
        &&& forall|k: nat|
            k <= prev.len() ==> in_i64(#[trigger] sum_total(prev, cur, k)) && in_i64(
                sum_idle(prev, cur, k),
            )
        &&& in_i64(
            busy_of(sum_total(prev, cur, prev.len()), sum_idle(prev, cur, prev.len())),
        )
    }
}

/// The ticks of a core as a value.
pub open spec fn ticks_of(total: int, idle: int) -> CoreTicks {
    CoreTicks { total: total as i64, idle: idle as i64, busy: busy_of(total, idle) as i64 }
}

/// Whether `v` fits a signed 64-bit integer.
fn fits_i64(v: i128) -> (b: bool)
    ensures
        b == in_i64(v as int),
{
    i64::MIN as i128 <= v && v <= i64::MAX as i128
}

/// Whether [`cpu_ticks`] can compare these readings (see [`ticks_fit`]).
pub fn cpu_ticks_fit(prev: &Vec<ProcessorTimes>, cur: &Vec<ProcessorTimes>) -> (r: bool)
    ensures
        r == ticks_fit(prev@, cur@),
{
    if prev.len() != cur.len() {
        return true;
    }
    let n = prev.len();
    let mut st: i128 = 0;
    let mut si: i128 = 0;
    let mut k: usize = 0;
    while k < n
        invariant
            n == prev@.len(),
            n == cur@.len(),
            k <= n,
            st == sum_total(prev@, cur@, k as nat),
            si == sum_idle(prev@, cur@, k as nat),
            forall|i: int| 0 <= i < k ==> core_fits(#[trigger] prev@[i], cur@[i]),
            forall|j: nat| j <= k ==> in_i64(#[trigger] sum_total(prev@, cur@, j)) && in_i64(
                sum_idle(prev@, cur@, j),
            ),
        decreases n - k,
    {
        let p = prev[k];
        let c = cur[k];
        let kernel = c.kernel_time as i128 - p.kernel_time as i128;
        let user = c.user_time as i128 - p.user_time as i128;
        let idle = c.idle_time as i128 - p.idle_time as i128;
        let total = kernel + user;
        let busy = if total > 0 {
            total - idle
        } else {
            0
        };
        if !(fits_i64(kernel) && fits_i64(user) && fits_i64(total) && fits_i64(idle) && fits_i64(busy)) {
            assert(!core_fits(prev@[k as int], cur@[k as int]));
            return false;
        }
        let st2 = st + total;
        let si2 = si + idle;
        assert(sum_total(prev@, cur@, (k + 1) as nat) == st2);
        assert(sum_idle(prev@, cur@, (k + 1) as nat) == si2);
        if !(fits_i64(st2) && fits_i64(si2)) {
            assert(!(in_i64(sum_total(prev@, cur@, (k + 1) as nat)) && in_i64(
                sum_idle(prev@, cur@, (k + 1) as nat),
            )));
            return false;
        }
        st = st2;
        si = si2;
        k = k + 1;
    }
    let busy = if st > 0 {
        st - si
    } else {
        0
    };
    fits_i64(busy)
}

/// The ticks of each core and of the whole CPU between the readings `prev`
/// and `cur` of the same cores; none when there is no earlier reading or
/// the number of cores changed.
pub fn cpu_ticks(prev: &Vec<ProcessorTimes>, cur: &Vec<ProcessorTimes>) -> (r: Option<CpuTicks>)
    requires
        ticks_fit(prev@, cur@),
    ensures
        prev@.len() == 0 || prev@.len() != cur@.len() ==> r is None,
        prev@.len() > 0 && prev@.len() == cur@.len() ==> (r matches Some(t) && {
            &&& t.cores@.len() == cur@.len()
            &&& forall|i: int|
                0 <= i < cur@.len() ==> #[trigger] t.cores@[i] == ticks_of(
                    core_total(prev@[i], cur@[i]),
                    core_idle(prev@[i], cur@[i]),
                )
            &&& t.all == ticks_of(
                sum_total(prev@, cur@, cur@.len()),
                sum_idle(prev@, cur@, cur@.len()),
            )
        }),
{
    let n = cur.len();
    if prev.len() == 0 || prev.len() != n {
        return None;
    }
    let mut cores: Vec<CoreTicks> = Vec::new();
    let mut total_system: i64 = 0;
    let mut total_idle: i64 = 0;
    let mut k: usize = 0;
    while k < n
        invariant
            n == prev@.len(),
            n == cur@.len(),
            k <= n,
            ticks_fit(prev@, cur@),
            total_system == sum_total(prev@, cur@, k as nat),
            total_idle == sum_idle(prev@, cur@, k as nat),
            cores@.len() == k,
            forall|i: int|
                0 <= i < k ==> #[trigger] cores@[i] == ticks_of(
                    core_total(prev@[i], cur@[i]),
                    core_idle(prev@[i], cur@[i]),
                ),
        decreases n - k,
    {
        let p = prev[k];
        let c = cur[k];
        assert(core_fits(prev@[k as int], cur@[k as int]));
        assert(in_i64(sum_total(prev@, cur@, (k + 1) as nat)));
        assert(in_i64(sum_idle(prev@, cur@, (k + 1) as nat)));
        let kernel = c.kernel_time - p.kernel_time;
        let user = c.user_time - p.user_time;
        let idle = c.idle_time - p.idle_time;
        let total = kernel + user;
        let busy = if total > 0 {
            total - idle
        } else {
            0
        };
        cores.push(CoreTicks { total, idle, busy });
        total_system = total_system + total;
        total_idle = total_idle + idle;
        k = k + 1;
    }
    let busy = if total_system > 0 {
        total_system - total_idle
    } else {
        0
    };
    Some(CpuTicks { cores, all: CoreTicks { total: total_system, idle: total_idle, busy } })
}


/// A core's ticks between two readings are its kernel plus user time
/// growth (kernel time already counts idle time), its idle ticks the idle
/// time growth, and its busy ticks all but the idle ones when it ticked at
/// all; the whole CPU's ticks add up the cores'.
pub proof fn law_core_ticks(prev: Seq<ProcessorTimes>, cur: Seq<ProcessorTimes>, k: nat)
    requires
        k < prev.len(),
        prev.len() == cur.len(),
        ticks_fit(prev, cur),
    ensures
        ({
            let p = prev[k as int];
            let c = cur[k as int];
            let t = ticks_of(core_total(p, c), core_idle(p, c));
            let total = (c.kernel_time - p.kernel_time) + (c.user_time - p.user_time);
            &&& t.total == total
            &&& t.idle == c.idle_time - p.idle_time
            &&& t.busy == (if total > 0 {
                total - (c.idle_time - p.idle_time)
            } else {
                0
            })
        }),
        sum_total(prev, cur, k + 1) == sum_total(prev, cur, k) + (cur[k as int].kernel_time
            - prev[k as int].kernel_time) + (cur[k as int].user_time - prev[k as int].user_time),
        sum_idle(prev, cur, k + 1) == sum_idle(prev, cur, k) + (cur[k as int].idle_time
            - prev[k as int].idle_time),
{
    assert(core_fits(prev[k as int], cur[k as int]));
}

} // verus!

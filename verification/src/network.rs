//! Network traffic: which interfaces count, which one is shown as the
//! active adapter, and the byte deltas between two samples. The application
//! reads the interface table from the operating system and turns the deltas
//! into speeds.
use vstd::prelude::*;
use crate::text::{trim, trimmed};

verus! {

broadcast use vstd::string::group_string_axioms;

/// `IfOperStatusUp`.
pub const OPER_STATUS_UP: i32 = 1;

/// `IF_TYPE_SOFTWARE_LOOPBACK`.
pub const IF_TYPE_LOOPBACK: u32 = 24;

/// Minimum wall time between two samples, in nanoseconds, for a speed to be
/// computed (50 ms).
pub const MIN_SPEED_GAP_NS: u64 = 50_000_000;

/// The fields of one row of the interface table that are used.
pub struct InterfaceRow {
    pub oper_status: i32,
    pub if_type: u32,
    pub in_octets: u64,
    pub out_octets: u64,
    pub description: String,
}

/// An interface counts when it is up and not the loopback.
pub open spec fn counts(r: InterfaceRow) -> bool {
    r.oper_status == OPER_STATUS_UP && r.if_type != IF_TYPE_LOOPBACK
}

/// Received bytes of the counted interfaces among `rows`.
pub open spec fn rx_total(rows: Seq<InterfaceRow>) -> nat
    decreases rows.len(),
{
    if rows.len() == 0 {
        0
    } else {
        rx_total(rows.drop_last()) + if counts(rows.last()) {
            rows.last().in_octets as nat
        } else {
            0
        }
    }
}

/// Sent bytes of the counted interfaces among `rows`.
pub open spec fn tx_total(rows: Seq<InterfaceRow>) -> nat
    decreases rows.len(),
{
    if rows.len() == 0 {
        0
    } else {
        tx_total(rows.drop_last()) + if counts(rows.last()) {
            rows.last().out_octets as nat
        } else {
            0
        }
    }
}

/// The largest traffic (received plus sent) of a counted interface among
/// `rows`, 0 when there is none.
pub open spec fn max_traffic(rows: Seq<InterfaceRow>) -> nat
    decreases rows.len(),
{
    if rows.len() == 0 {
        0
    } else {
        let m = max_traffic(rows.drop_last());
        let r = rows.last();
        if counts(r) && r.in_octets + r.out_octets > m {
            (r.in_octets + r.out_octets) as nat
        } else {
            m
        }
    }
}

/// The adapter shown for `rows`: scanning in order, each counted interface
/// whose traffic beats every earlier one becomes the busiest; the name is
/// that of the last such interface with a non-blank (trimmed) description.
pub open spec fn busiest_name(rows: Seq<InterfaceRow>) -> Option<Seq<char>>
    decreases rows.len(),
{
    if rows.len() == 0 {
        None
    } else {
        let earlier = busiest_name(rows.drop_last());
        let r = rows.last();
        if counts(r) && r.in_octets + r.out_octets > max_traffic(rows.drop_last()) && trimmed(
            r.description@,
        ).len() > 0 {
            Some(trimmed(r.description@))
        } else {
            earlier
        }
    }
}

/// The counted interfaces' traffic fits the 64-bit counters.
pub open spec fn totals_fit(rows: Seq<InterfaceRow>) -> bool {
    &&& rx_total(rows) <= u64::MAX
    &&& tx_total(rows) <= u64::MAX
    &&& forall|i: int|
        0 <= i < rows.len() && counts(#[trigger] rows[i]) ==> rows[i].in_octets + rows[i].out_octets
            <= u64::MAX
}

/// Traffic of one sample of the interface table.
pub struct InterfaceSummary {
    pub rx_total: u64,
    pub tx_total: u64,
    pub busiest: Option<String>,
}

proof fn lemma_totals_prefix(rows: Seq<InterfaceRow>, k: int)
    requires
        0 <= k <= rows.len(),
    ensures
        rx_total(rows.take(k)) <= rx_total(rows),
        tx_total(rows.take(k)) <= tx_total(rows),
    decreases rows.len() - k,
{
    if k < rows.len() {
        assert(rows.drop_last().take(k) =~= rows.take(k));
        lemma_totals_prefix(rows.drop_last(), k);
    } else {
        assert(rows.take(k) =~= rows);
    }
}

/// The traffic (received plus sent) of an interface.
pub open spec fn traffic(r: InterfaceRow) -> nat {
    (r.in_octets + r.out_octets) as nat
}

/// The largest traffic is 0 or that of a counted interface.
proof fn lemma_max_traffic_attained(rows: Seq<InterfaceRow>)
    ensures
        max_traffic(rows) == 0 || exists|j: int|
            0 <= j < rows.len() && counts(#[trigger] rows[j]) && traffic(rows[j]) == max_traffic(
                rows,
            ),
    decreases rows.len(),
{
    if rows.len() > 0 {
        let e = rows.drop_last();
        lemma_max_traffic_attained(e);
        if max_traffic(rows) != max_traffic(e) {
            assert(counts(rows[rows.len() - 1]));
        } else if max_traffic(e) != 0 {
            let j = choose|j: int|
                0 <= j < e.len() && counts(#[trigger] e[j]) && traffic(e[j]) == max_traffic(e);
            assert(rows[j] == e[j]);
        }
    }
}

/// Over the first `k` rows, once row `i` (counted, named, with the most
/// traffic) is among them, it is the busiest and its traffic the largest.
proof fn lemma_busiest_prefix(rows: Seq<InterfaceRow>, i: int, k: int)
    requires
        0 <= i < k <= rows.len(),
        counts(rows[i]),
        traffic(rows[i]) > 0,
        trimmed(rows[i].description@).len() > 0,
        forall|j: int|
            0 <= j < rows.len() && j != i && counts(#[trigger] rows[j]) ==> traffic(rows[j])
                < traffic(rows[i]),
    ensures
        max_traffic(rows.take(k)) == traffic(rows[i]),
        busiest_name(rows.take(k)) == Some(trimmed(rows[i].description@)),
    decreases k,
{
    let p = rows.take(k);
    assert(p.drop_last() =~= rows.take(k - 1));
    assert(p.last() == rows[k - 1]);
    if k - 1 == i {
        let e = rows.take(i);
        lemma_max_traffic_attained(e);
        if max_traffic(e) != 0 {
            let j = choose|j: int|
                0 <= j < e.len() && counts(#[trigger] e[j]) && traffic(e[j]) == max_traffic(e);
            assert(e[j] == rows[j]);
        }
    } else {
        lemma_busiest_prefix(rows, i, k - 1);
    }
}

/// An adapter that is up, not the loopback, has a (non-blank) name and
/// carries strictly more traffic than every other counted adapter is the
/// one reported as busiest, by its trimmed name.
pub proof fn law_busiest_adapter(rows: Seq<InterfaceRow>, i: int)
    requires
        0 <= i < rows.len(),
        counts(rows[i]),
        traffic(rows[i]) > 0,
        trimmed(rows[i].description@).len() > 0,
        forall|j: int|
            0 <= j < rows.len() && j != i && counts(#[trigger] rows[j]) ==> traffic(rows[j])
                < traffic(rows[i]),
    ensures
        busiest_name(rows) == Some(trimmed(rows[i].description@)),
{
    lemma_busiest_prefix(rows, i, rows.len() as int);
    assert(rows.take(rows.len() as int) =~= rows);
}

proof fn lemma_max_traffic_above(rows: Seq<InterfaceRow>)
    ensures
        forall|j: int|
            0 <= j < rows.len() && counts(#[trigger] rows[j]) ==> traffic(rows[j]) <= max_traffic(
                rows,
            ),
    decreases rows.len(),
{
    if rows.len() > 0 {
        let e = rows.drop_last();
        lemma_max_traffic_above(e);
        assert forall|j: int| 0 <= j < rows.len() && counts(#[trigger] rows[j]) implies traffic(
            rows[j],
        ) <= max_traffic(rows) by {
            if j < rows.len() - 1 {
                assert(rows[j] == e[j]);
            }
        }
    }
}

/// A reported busiest adapter is a counted one with a non-blank name and
/// some traffic, strictly more than every counted adapter before it (a tie
/// keeps the earlier one); with no traffic on any counted adapter none is
/// reported.
pub proof fn law_busiest_is_a_counted_adapter(rows: Seq<InterfaceRow>)
    ensures
        busiest_name(rows) matches Some(n) ==> exists|i: int|
            0 <= i < rows.len() && counts(#[trigger] rows[i]) && traffic(rows[i]) > 0 && n
                == trimmed(rows[i].description@) && n.len() > 0 && forall|j: int|
                0 <= j < i && counts(#[trigger] rows[j]) ==> traffic(rows[j]) < traffic(rows[i]),
        (forall|j: int| 0 <= j < rows.len() && counts(#[trigger] rows[j]) ==> traffic(rows[j]) == 0)
            ==> busiest_name(rows) is None,
    decreases rows.len(),
{
    if rows.len() > 0 {
        let e = rows.drop_last();
        let k = rows.len() - 1;
        let r = rows.last();
        law_busiest_is_a_counted_adapter(e);
        lemma_max_traffic_above(e);
        if counts(r) && r.in_octets + r.out_octets > max_traffic(e) && trimmed(r.description@).len()
            > 0 {
            assert forall|j: int| 0 <= j < k && counts(#[trigger] rows[j]) implies traffic(rows[j])
                < traffic(rows[k]) by {
                assert(rows[j] == e[j]);
            }
            assert(counts(rows[k]));
        } else {
            if let Some(n) = busiest_name(e) {
                let i = choose|i: int|
                    0 <= i < e.len() && counts(#[trigger] e[i]) && traffic(e[i]) > 0 && n
                        == trimmed(e[i].description@) && n.len() > 0 && forall|j: int|
                        0 <= j < i && counts(#[trigger] e[j]) ==> traffic(e[j]) < traffic(e[i]);
                assert(rows[i] == e[i]);
                assert forall|j: int| 0 <= j < i && counts(#[trigger] rows[j]) implies traffic(
                    rows[j],
                ) < traffic(rows[i]) by {
                    assert(rows[j] == e[j]);
                }
            }
            if forall|j: int| 0 <= j < rows.len() && counts(#[trigger] rows[j]) ==> traffic(rows[j])
                == 0 {
                assert forall|j: int| 0 <= j < e.len() && counts(#[trigger] e[j]) implies traffic(
                    e[j],
                ) == 0 by {
                    assert(rows[j] == e[j]);
                }
            }
        }
    }
}

/// Whether the counted interfaces' traffic fits the 64-bit counters, which
/// [`summarize_interfaces`] needs.
pub fn interface_totals_fit(rows: &Vec<InterfaceRow>) -> (r: bool)
    ensures
        r == totals_fit(rows@),
{
    let mut rx: u64 = 0;
    let mut tx: u64 = 0;
    let mut i: usize = 0;
    while i < rows.len()
        invariant
            i <= rows@.len(),
            rx == rx_total(rows@.take(i as int)),
            tx == tx_total(rows@.take(i as int)),
            forall|j: int|
                0 <= j < i && counts(#[trigger] rows@[j]) ==> rows@[j].in_octets
                    + rows@[j].out_octets <= u64::MAX,
        decreases rows@.len() - i,
    {
        let row = &rows[i];
        proof {
            assert(rows@.take(i + 1).drop_last() =~= rows@.take(i as int));
            lemma_totals_prefix(rows@, i + 1);
        }
        if row.oper_status == OPER_STATUS_UP && row.if_type != IF_TYPE_LOOPBACK {
            if row.in_octets > u64::MAX - row.out_octets {
                return false;
            }
            if rx > u64::MAX - row.in_octets || tx > u64::MAX - row.out_octets {
                return false;
            }
            rx = rx + row.in_octets;
            tx = tx + row.out_octets;
        }
        i = i + 1;
    }
    assert(rows@.take(i as int) =~= rows@);
    true
}

/// Sums the traffic of the counted interfaces and picks the busiest
/// adapter's name.
pub fn summarize_interfaces(rows: &Vec<InterfaceRow>) -> (r: InterfaceSummary)
    requires
        totals_fit(rows@),
    ensures
        r.rx_total == rx_total(rows@),
        r.tx_total == tx_total(rows@),
        match r.busiest {
            Some(name) => busiest_name(rows@) == Some(name@),
            None => busiest_name(rows@) is None,
        },
{
    let mut rx: u64 = 0;
    let mut tx: u64 = 0;
    let mut max: u64 = 0;
    let mut best: Option<String> = None;
    let mut i: usize = 0;
    while i < rows.len()
        invariant
            i <= rows@.len(),
            totals_fit(rows@),
            rx == rx_total(rows@.take(i as int)),
            tx == tx_total(rows@.take(i as int)),
            max == max_traffic(rows@.take(i as int)),
            match best {
                Some(name) => busiest_name(rows@.take(i as int)) == Some(name@),
                None => busiest_name(rows@.take(i as int)) is None,
            },
        decreases rows@.len() - i,
    {
        let row = &rows[i];
        proof {
            assert(rows@.take(i + 1).drop_last() =~= rows@.take(i as int));
            lemma_totals_prefix(rows@, i + 1);
        }
        if row.oper_status == OPER_STATUS_UP && row.if_type != IF_TYPE_LOOPBACK {
            rx = rx + row.in_octets;
            tx = tx + row.out_octets;
            let sum = row.in_octets + row.out_octets;
            if sum > max {
                max = sum;
                let desc = trim(row.description.as_str());
                if desc.as_str().unicode_len() > 0 {
                    best = Some(desc);
                }
            }
        }
        i = i + 1;
    }
    assert(rows@.take(i as int) =~= rows@);
    InterfaceSummary { rx_total: rx, tx_total: tx, busiest: best }
}

/// Byte counts sent and received between two samples, and the wall time
/// between them.
#[derive(Debug, Clone, Copy, PartialEq, Eq, Structural)]
pub struct TrafficDelta {
    pub rx_bytes: u64,
    pub tx_bytes: u64,
    pub wall_ns: u64,
}

/// Tracks the network counters and the shown adapter between samples.
pub struct NetworkTracker {
    pub prev_rx_total: u64,
    pub prev_tx_total: u64,
    pub prev_time_ns: Option<u64>,
    pub active_iface: String,
}

/// The traffic since the previous sample: there is one when there was a
/// previous sample more than 50 ms ago, with a non-zero received count that
/// did not go back.
pub open spec fn traffic_delta(
    prev_rx: u64,
    prev_tx: u64,
    prev_time: Option<u64>,
    rx: u64,
    tx: u64,
    now: u64,
) -> Option<TrafficDelta> {
    match prev_time {
        None => None,
        Some(t) => {
            let dt = if now >= t {
                (now - t) as u64
            } else {
                0
            };
            if dt > MIN_SPEED_GAP_NS && prev_rx > 0 && rx >= prev_rx {
                Some(
                    TrafficDelta {
                        rx_bytes: (rx - prev_rx) as u64,
                        tx_bytes: (tx - prev_tx) as u64,
                        wall_ns: dt,
                    },
                )
            } else {
                None
            }
        },
    }
}

/// The sent counter may only go back when the received one is not usable
/// for a speed.
pub open spec fn tx_monotone_when_used(
    prev_rx: u64,
    prev_tx: u64,
    prev_time: Option<u64>,
    rx: u64,
    tx: u64,
    now: u64,
) -> bool {
    match prev_time {
        None => true,
        Some(t) => {
            let dt = if now >= t {
                now - t
            } else {
                0
            };
            dt > MIN_SPEED_GAP_NS && prev_rx > 0 && rx >= prev_rx ==> tx >= prev_tx
        },
    }
}

impl NetworkTracker {
    /// A tracker with no sample yet, showing the generic adapter name.
    pub fn new() -> (r: Self)
        ensures
            r.prev_rx_total == 0,
            r.prev_tx_total == 0,
            r.prev_time_ns is None,
            r.active_iface@ == seq!['P', 'r', 'i', 'm', 'a', 'r', 'y', ' ', 'A', 'd', 'a', 'p', 't', 'e', 'r'],
    {
        let mut name = String::new();
        crate::gauge::push_all(
            &mut name,
            &['P', 'r', 'i', 'm', 'a', 'r', 'y', ' ', 'A', 'd', 'a', 'p', 't', 'e', 'r'],
        );
        NetworkTracker { prev_rx_total: 0, prev_tx_total: 0, prev_time_ns: None, active_iface: name }
    }

    /// Whether [`NetworkTracker::update`] can take this sample: whenever a
    /// rate is computed, the sent counter must not have gone back.
    pub fn accepts(&self, summary: &InterfaceSummary, now_ns: u64) -> (r: bool)
        ensures
            r == tx_monotone_when_used(
                self.prev_rx_total,
                self.prev_tx_total,
                self.prev_time_ns,
                summary.rx_total,
                summary.tx_total,
                now_ns,
            ),
    {
        match self.prev_time_ns {
            None => true,
            Some(t) => {
                let dt = if now_ns >= t {
                    now_ns - t
                } else {
                    0
                };
                !(dt > MIN_SPEED_GAP_NS && self.prev_rx_total > 0 && summary.rx_total
                    >= self.prev_rx_total) || summary.tx_total >= self.prev_tx_total
            },
        }
    }

    /// Takes a sample taken at `now_ns`: returns the traffic since the
    /// previous sample when there is one, keeps this sample's counters, and
    /// switches the shown adapter to the busiest named one, if any.
    pub fn update(&mut self, summary: InterfaceSummary, now_ns: u64) -> (r: Option<TrafficDelta>)
        requires
            tx_monotone_when_used(
                old(self).prev_rx_total,
                old(self).prev_tx_total,
                old(self).prev_time_ns,
                summary.rx_total,
                summary.tx_total,
                now_ns,
            ),
        ensures
            r == traffic_delta(
                old(self).prev_rx_total,
                old(self).prev_tx_total,
                old(self).prev_time_ns,
                summary.rx_total,
                summary.tx_total,
                now_ns,
            ),
            final(self).prev_rx_total == summary.rx_total,
            final(self).prev_tx_total == summary.tx_total,
            final(self).prev_time_ns == Some(now_ns),
            final(self).active_iface@ == match summary.busiest {
                Some(name) => name@,
                None => old(self).active_iface@,
            },
    {
        let mut delta: Option<TrafficDelta> = None;
        if let Some(t) = self.prev_time_ns {
            let dt = if now_ns >= t {
                now_ns - t
            } else {
                0
            };
            if dt > MIN_SPEED_GAP_NS && self.prev_rx_total > 0 && summary.rx_total
                >= self.prev_rx_total {
                delta = Some(
                    TrafficDelta {
                        rx_bytes: summary.rx_total - self.prev_rx_total,
                        tx_bytes: summary.tx_total - self.prev_tx_total,
                        wall_ns: dt,
                    },
                );
            }
        }
        self.prev_time_ns = Some(now_ns);
        self.prev_rx_total = summary.rx_total;
        self.prev_tx_total = summary.tx_total;
        if let Some(name) = summary.busiest {
            self.active_iface = name;
        }
        delta
    }
}


/// The totals count every interface that is up and not the loopback, and
/// only those: one row contributes its own counters when counted and
/// nothing otherwise, and the totals of two lists of rows add up.
pub proof fn law_totals_add_up(a: Seq<InterfaceRow>, b: Seq<InterfaceRow>, r: InterfaceRow)
    ensures
        rx_total(a + b) == rx_total(a) + rx_total(b),
        tx_total(a + b) == tx_total(a) + tx_total(b),
        rx_total(seq![r]) == (if r.oper_status == 1 && r.if_type != 24 {
            r.in_octets as nat
        } else {
            0
        }),
        tx_total(seq![r]) == (if r.oper_status == 1 && r.if_type != 24 {
            r.out_octets as nat
        } else {
            0
        }),
    decreases b.len(),
{
    assert(seq![r].drop_last() =~= Seq::<InterfaceRow>::empty());
    assert(seq![r].last() == r);
    assert(rx_total(Seq::<InterfaceRow>::empty()) == 0);
    assert(tx_total(Seq::<InterfaceRow>::empty()) == 0);
    if b.len() > 0 {
        law_totals_add_up(a, b.drop_last(), r);
        assert((a + b).drop_last() =~= a + b.drop_last());
        assert((a + b).last() == b.last());
    } else {
        assert(a + b =~= a);
    }
}

/// A rate is reported only against an earlier sample taken more than 50 ms
/// before, with a non-zero received counter that did not go back; it is
/// then the growth of both counters and the time between the samples (the
/// tracker refuses a sent counter that went back, see `accepts`).
pub proof fn law_traffic_delta(prev_rx: u64, prev_tx: u64, prev_time: Option<u64>, rx: u64, tx: u64, now: u64)
    ensures
        traffic_delta(prev_rx, prev_tx, prev_time, rx, tx, now) is Some <==> (prev_time is Some
            && now >= prev_time->0 && now - prev_time->0 > MIN_SPEED_GAP_NS && prev_rx > 0 && rx
            >= prev_rx),
        traffic_delta(prev_rx, prev_tx, prev_time, rx, tx, now) matches Some(d) ==> d.rx_bytes
            == rx - prev_rx && d.wall_ns == now - prev_time->0,
        tx >= prev_tx ==> (traffic_delta(prev_rx, prev_tx, prev_time, rx, tx, now) matches Some(d)
            ==> d.tx_bytes == tx - prev_tx),
{
}

} // verus!

//! Online bus statistics: load, message rate, inter-frame timing and
//! per-identifier frequency.
//!
//! Times are microseconds on the caller's monotonic clock. Rates are in
//! millihertz (thousandths of a message per second), loads in hundredths of a
//! percent; derived values are rounded down.

use std::collections::hash_map::RandomState;
use std::collections::HashMap;
use std::collections::VecDeque;
use vstd::prelude::*;
use vstd::std_specs::hash::{builds_valid_hashers, obeys_key_model};

verus! {

/// Largest timestamp accepted, exclusive: 2^48 microseconds, about 8.9 years
/// of clock time.
pub const MAX_TIMESTAMP_US: u64 = 0x1_0000_0000_0000;

/// The message-rate window keeps entries at most this old relative to the
/// newest one.
pub const RATE_WINDOW_US: u64 = 5_000_000;

/// Number of inter-frame gaps kept for the jitter.
pub const GAP_WINDOW_CAPACITY: usize = 1000;

/// Number of load samples kept for the average load.
pub const LOAD_WINDOW_CAPACITY: usize = 100;

/// Per-identifier rates are computed only once this much time has elapsed
/// since the engine started.
pub const COB_ID_RATE_MIN_ELAPSED_US: u64 = 1_000_000;

/// Converts "messages per microsecond" into millihertz.
pub const MILLIHERTZ_SCALE: u128 = 1_000_000_000;

/// What is known of one identifier.
#[derive(Clone, Copy, Debug, PartialEq, Eq, Structural)]
pub struct CobIdStats {
    /// Frames seen with this identifier.
    pub count: u64,
    /// Arrival time of the latest of them.
    pub last_seen_us: u64,
    /// Rate in millihertz from the latest rate computation that saw it.
    pub rate_mhz: Option<u128>,
}

/// The engine's state as plain values.
pub struct StatsView {
    pub total: u64,
    /// Rate window: (arrival time, running total) per message, oldest first.
    pub history: Seq<(u64, u64)>,
    pub current_load: u64,
    pub peak_load: u64,
    pub avg_load: u64,
    pub load_window: Seq<u64>,
    pub last_time: Option<u64>,
    pub min_gap: Option<u64>,
    pub max_gap: Option<u64>,
    pub gap_sum: int,
    pub gap_count: u64,
    pub gap_window: Seq<u64>,
    pub cob_ids: Map<u16, CobIdStats>,
    pub current_rate: u128,
    pub peak_rate: u128,
    pub avg_rate: u128,
    pub start: u64,
}

/// Time from `from` to `to`, or zero where `to` is earlier.
pub open spec fn elapsed(from: u64, to: u64) -> u64 {
    if to > from {
        (to - from) as u64
    } else {
        0
    }
}

/// `s` with `x` appended, the oldest element dropped where that exceeds `cap`.
pub open spec fn bounded_push(s: Seq<u64>, x: u64, cap: nat) -> Seq<u64> {
    if s.len() + 1 > cap {
        s.push(x).drop_first()
    } else {
        s.push(x)
    }
}

/// `h` without its leading entries older than the rate window relative to `now`.
pub open spec fn prune_history(h: Seq<(u64, u64)>, now: u64) -> Seq<(u64, u64)>
    decreases h.len(),
{
    if h.len() > 0 && elapsed(h[0].0, now) > RATE_WINDOW_US {
        prune_history(h.drop_first(), now)
    } else {
        h
    }
}

pub open spec fn seq_sum(s: Seq<u64>) -> int
    decreases s.len(),
{
    if s.len() == 0 {
        0
    } else {
        seq_sum(s.drop_last()) + s.last()
    }
}

pub open spec fn opt_min(o: Option<u64>, x: u64) -> u64 {
    match o {
        Some(m) => if x < m {
            x
        } else {
            m
        },
        None => x,
    }
}

pub open spec fn opt_max(o: Option<u64>, x: u64) -> u64 {
    match o {
        Some(m) => if x > m {
            x
        } else {
            m
        },
        None => x,
    }
}

/// The engine after a message with identifier `id` arrived at `t`.
pub open spec fn on_message_step(v: StatsView, id: u16, t: u64) -> StatsView {
    let total = (v.total + 1) as u64;
    let entry = if v.cob_ids.contains_key(id) {
        CobIdStats { count: (v.cob_ids[id].count + 1) as u64, last_seen_us: t, ..v.cob_ids[id] }
    } else {
        CobIdStats { count: 1, last_seen_us: t, rate_mhz: None }
    };
    let g = match v.last_time {
        Some(l) => elapsed(l, t),
        None => 0,
    };
    let timed = match v.last_time {
        Some(l) => StatsView {
            min_gap: Some(opt_min(v.min_gap, g)),
            max_gap: Some(opt_max(v.max_gap, g)),
            gap_sum: v.gap_sum + g,
            gap_count: (v.gap_count + 1) as u64,
            gap_window: bounded_push(v.gap_window, g, GAP_WINDOW_CAPACITY as nat),
            ..v
        },
        None => v,
    };
    StatsView {
        total,
        cob_ids: v.cob_ids.insert(id, entry),
        last_time: Some(t),
        history: prune_history(v.history.push((t, total)), t),
        ..timed
    }
}

/// Whether the oldest entry of the rate window is older than the window
/// relative to `now`.
fn front_is_stale(h: &VecDeque<(u64, u64)>, now: u64) -> (r: bool)
    ensures
        r == (h@.len() > 0 && elapsed(h@[0].0, now) > RATE_WINDOW_US),
{
    if h.len() == 0 {
        return false;
    }
    let oldest = h[0].0;
    now > oldest && now - oldest > RATE_WINDOW_US
}

/// Drops the leading entries of the rate window that are older than the
/// window relative to `now`.
fn prune_stale(h: &mut VecDeque<(u64, u64)>, now: u64)
    ensures
        final(h)@ == prune_history(old(h)@, now),
        exists|k: int| 0 <= k <= old(h)@.len() && final(h)@ == old(h)@.subrange(k, old(h)@.len() as int),
{
    let ghost start = h@;
    let ghost mut k: int = 0;
    while front_is_stale(h, now)
        invariant
            prune_history(h@, now) == prune_history(start, now),
            0 <= k <= start.len(),
            h@ == start.subrange(k, start.len() as int),
        decreases h@.len(),
    {
        let _ = h.pop_front();
        proof {
            k = k + 1;
        }
    }
}

/// The engine after a load sample (hundredths of a percent): current value,
/// all-time peak, and the mean of the bounded sample window.
pub open spec fn update_load_step(v: StatsView, load: u64) -> StatsView {
    let w = bounded_push(v.load_window, load, LOAD_WINDOW_CAPACITY as nat);
    StatsView {
        current_load: load,
        peak_load: if load > v.peak_load {
            load
        } else {
            v.peak_load
        },
        load_window: w,
        avg_load: (seq_sum(w) / w.len() as int) as u64,
        ..v
    }
}

/// The engine after the message rate is computed at `now`: with fewer than
/// two entries in the rate window the current rate is zero; otherwise, where
/// the window spans a positive time, the current rate is the count
/// difference over that span, the peak follows it, and the average rate is
/// the total over the time since start (where that is positive).
pub open spec fn msg_rate_step(v: StatsView, now: u64) -> StatsView {
    if v.history.len() < 2 {
        StatsView { current_rate: 0, ..v }
    } else {
        let first = v.history[0];
        let last = v.history.last();
        let span = elapsed(first.0, last.0);
        if span > 0 {
            let rate = ((last.1 - first.1) * MILLIHERTZ_SCALE / span as int) as u128;
            let since_start = elapsed(v.start, now);
            StatsView {
                current_rate: rate,
                peak_rate: if rate > v.peak_rate {
                    rate
                } else {
                    v.peak_rate
                },
                avg_rate: if since_start > 0 {
                    (v.total * MILLIHERTZ_SCALE / since_start as int) as u128
                } else {
                    v.avg_rate
                },
                ..v
            }
        } else {
            v
        }
    }
}

/// `s` with its rate set to its count over `elapsed_us`, in millihertz.
pub open spec fn with_rate(s: CobIdStats, elapsed_us: u64) -> CobIdStats {
    CobIdStats {
        rate_mhz: Some((s.count * MILLIHERTZ_SCALE / elapsed_us as int) as u128),
        ..s
    }
}

/// The engine after per-identifier rates are computed at `now`: once more
/// than a second has elapsed since start, every identifier seen gets its
/// count over the whole elapsed time; before that nothing changes.
pub open spec fn cob_id_rates_step(v: StatsView, now: u64) -> StatsView {
    let e = elapsed(v.start, now);
    if e > COB_ID_RATE_MIN_ELAPSED_US {
        StatsView {
            cob_ids: Map::new(
                |k: u16| v.cob_ids.contains_key(k),
                |k: u16| with_rate(v.cob_ids[k], e),
            ),
            ..v
        }
    } else {
        v
    }
}

/// A sum of `s` bounded by its length times a bound on its elements.
proof fn lemma_seq_sum_bound(s: Seq<u64>, b: int)
    requires
        forall|i: int| 0 <= i < s.len() ==> s[i] <= b,
    ensures
        0 <= seq_sum(s) <= s.len() * b,
    decreases s.len(),
{
    if s.len() > 0 {
        lemma_seq_sum_bound(s.drop_last(), b);
        let n = s.len() as int;
        assert((n - 1) * b + b == n * b) by (nonlinear_arith);
    }
}

/// Sum of a window of at most a thousand values.
fn window_sum(w: &VecDeque<u64>) -> (r: u128)
    requires
        w@.len() <= GAP_WINDOW_CAPACITY,
    ensures
        r == seq_sum(w@),
{
    let mut sum: u128 = 0;
    let mut i: usize = 0;
    while i < w.len()
        invariant
            i <= w@.len() <= GAP_WINDOW_CAPACITY,
            sum == seq_sum(w@.take(i as int)),
        decreases w@.len() - i,
    {
        proof {
            assert(w@.take(i + 1).drop_last() =~= w@.take(i as int));
            lemma_seq_sum_bound(w@.take(i as int), u64::MAX as int);
            assert(i * (u64::MAX as int) <= GAP_WINDOW_CAPACITY * (u64::MAX as int)) by (nonlinear_arith)
                requires i <= GAP_WINDOW_CAPACITY;
        }
        sum = sum + w[i] as u128;
        i = i + 1;
    }
    assert(w@.take(w@.len() as int) =~= w@);
    sum
}

/// Growing a prefix of a list without duplicates by one element adds exactly
/// that element, which the shorter prefix did not hold.
proof fn lemma_prefix_grows(ids: Seq<u16>, i: int)
    requires
        ids.no_duplicates(),
        0 <= i < ids.len(),
    ensures
        !ids.take(i).contains(ids[i]),
        forall|k: u16| ids.take(i + 1).contains(k) <==> ids.take(i).contains(k) || k == ids[i],
{
    let t0 = ids.take(i);
    let t1 = ids.take(i + 1);
    if t0.contains(ids[i]) {
        let j = choose|j: int| 0 <= j < i && t0[j] == ids[i];
        assert(ids[j] == ids[i]);
    }
    assert forall|k: u16| t1.contains(k) <==> t0.contains(k) || k == ids[i] by {
        if t1.contains(k) {
            let j = choose|j: int| 0 <= j < t1.len() && t1[j] == k;
            if j < i {
                assert(t0[j] == k);
            }
        }
        if t0.contains(k) {
            let j = choose|j: int| 0 <= j < t0.len() && t0[j] == k;
            assert(t1[j] == k);
        }
        if k == ids[i] {
            assert(t1[i] == k);
        }
    }
}

/// Sets the rate of every identifier of `m` (all listed once in `ids`) to its
/// count over `e` microseconds, in millihertz.
fn set_rates(m: &mut HashMap<u16, CobIdStats>, ids: &Vec<u16>, e: u64)
    requires
        e > 0,
        ids@.no_duplicates(),
        forall|k: u16| old(m)@.contains_key(k) <==> ids@.contains(k),
    ensures
        final(m)@ == Map::new(
            |k: u16| old(m)@.contains_key(k),
            |k: u16| with_rate(old(m)@[k], e),
        ),
{
    let ghost orig = m@;
    proof {
        assert(obeys_key_model::<u16>());
        assert(builds_valid_hashers::<RandomState>());
    }
    let mut i: usize = 0;
    while i < ids.len()
        invariant
            e > 0,
            i <= ids@.len(),
            ids@.no_duplicates(),
            forall|k: u16| orig.contains_key(k) <==> ids@.contains(k),
            forall|k: u16| #[trigger] m@.contains_key(k) <==> orig.contains_key(k),
            forall|k: u16|
                #[trigger] orig.contains_key(k) ==> m@[k] == if ids@.take(i as int).contains(k) {
                    with_rate(orig[k], e)
                } else {
                    orig[k]
                },
        decreases ids@.len() - i,
    {
        let id = ids[i];
        proof {
            assert(ids@.contains(id));
            lemma_prefix_grows(ids@, i as int);
        }
        match m.get(&id) {
            Some(s) => {
                let updated = CobIdStats {
                    rate_mhz: Some(s.count as u128 * MILLIHERTZ_SCALE / e as u128),
                    ..*s
                };
                m.insert(id, updated);
            },
            None => {},
        }
        i = i + 1;
    }
    proof {
        assert(ids@.take(ids@.len() as int) =~= ids@);
    }
    assert(m@ =~= Map::new(|k: u16| orig.contains_key(k), |k: u16| with_rate(orig[k], e)));
}

/// `a` comes before `b` in the ranking: higher rate first, and on equal
/// rates the lower identifier first.
pub open spec fn ranks_before(a: (u16, u128), b: (u16, u128)) -> bool {
    a.1 > b.1 || (a.1 == b.1 && a.0 < b.0)
}

/// Identifier `k` has a computed rate.
pub open spec fn is_rated(m: Map<u16, CobIdStats>, k: u16) -> bool {
    m.contains_key(k) && m[k].rate_mhz is Some
}

/// Identifier `k` occurs in the ranking `r`.
pub open spec fn is_listed(r: Seq<(u16, u128)>, k: u16) -> bool {
    exists|i: int| 0 <= i < r.len() && #[trigger] r[i].0 == k
}

/// `r` is the first `n` of the identifiers with a computed rate, as
/// (identifier, rate) pairs ranked by `ranks_before`; all of them where there
/// are fewer than `n`.
pub open spec fn is_top_rates(m: Map<u16, CobIdStats>, n: nat, r: Seq<(u16, u128)>) -> bool {
    &&& r.len() <= n
    &&& forall|i: int|
        0 <= i < r.len() ==> is_rated(m, #[trigger] r[i].0) && m[r[i].0].rate_mhz == Some(r[i].1)
    &&& forall|i: int, j: int| 0 <= i < j < r.len() ==> ranks_before(r[i], r[j])
    &&& forall|k: u16|
        #[trigger] is_rated(m, k) && !is_listed(r, k) ==> r.len() == n && (n > 0 ==> ranks_before(
            r[n - 1],
            (k, m[k].rate_mhz->Some_0),
        ))
}

fn ranks_before_exec(a: (u16, u128), b: (u16, u128)) -> (r: bool)
    ensures
        r == ranks_before(a, b),
{
    a.1 > b.1 || (a.1 == b.1 && a.0 < b.0)
}

/// The (identifier, rate) pairs of every identifier with a computed rate,
/// each once.
fn rated_entries(m: &HashMap<u16, CobIdStats>, ids: &Vec<u16>) -> (r: Vec<(u16, u128)>)
    requires
        ids@.no_duplicates(),
        forall|k: u16| m@.contains_key(k) <==> ids@.contains(k),
    ensures
        forall|j: int|
            0 <= j < r@.len() ==> is_rated(m@, #[trigger] r@[j].0) && m@[r@[j].0].rate_mhz == Some(
                r@[j].1,
            ),
        forall|a: int, b: int| 0 <= a < b < r@.len() ==> r@[a].0 != r@[b].0,
        forall|k: u16| #[trigger] is_rated(m@, k) ==> is_listed(r@, k),
{
    proof {
        assert(obeys_key_model::<u16>());
        assert(builds_valid_hashers::<RandomState>());
    }
    let mut r: Vec<(u16, u128)> = Vec::new();
    let mut i: usize = 0;
    while i < ids.len()
        invariant
            i <= ids@.len(),
            ids@.no_duplicates(),
            forall|k: u16| m@.contains_key(k) <==> ids@.contains(k),
            forall|j: int|
                0 <= j < r@.len() ==> is_rated(m@, #[trigger] r@[j].0) && m@[r@[j].0].rate_mhz
                    == Some(r@[j].1),
            forall|j: int| 0 <= j < r@.len() ==> ids@.take(i as int).contains(#[trigger] r@[j].0),
            forall|a: int, b: int| 0 <= a < b < r@.len() ==> r@[a].0 != r@[b].0,
            forall|k: u16|
                #[trigger] is_rated(m@, k) && ids@.take(i as int).contains(k) ==> is_listed(r@, k),
        decreases ids@.len() - i,
    {
        let id = ids[i];
        let ghost r0 = r@;
        proof {
            lemma_prefix_grows(ids@, i as int);
        }
        match m.get(&id) {
            Some(s) => {
                match s.rate_mhz {
                    Some(rate) => {
                        r.push((id, rate));
                    },
                    None => {},
                }
            },
            None => {},
        }
        proof {
            let t0 = ids@.take(i as int);
            let t1 = ids@.take(i + 1);
            assert forall|k: u16| #[trigger] is_rated(m@, k) && t1.contains(k) implies is_listed(r@, k) by {
                if k == id {
                    assert(r@[r@.len() - 1].0 == k);
                } else {
                    assert(is_listed(r0, k));
                    let j = choose|j: int| 0 <= j < r0.len() && #[trigger] r0[j].0 == k;
                    assert(r@[j].0 == k);
                }
            }
            assert forall|j: int| 0 <= j < r@.len() implies t1.contains(#[trigger] r@[j].0) by {
                if j < r0.len() {
                    assert(r@[j] == r0[j]);
                }
            }
            assert forall|a: int, b: int| 0 <= a < b < r@.len() implies r@[a].0 != r@[b].0 by {
                if b == r0.len() {
                    assert(t0.contains(r0[a].0));
                } else {
                    assert(r@[a] == r0[a] && r@[b] == r0[b]);
                }
            }
        }
        i = i + 1;
    }
    proof {
        assert(ids@.take(ids@.len() as int) =~= ids@);
    }
    r
}

/// Sum over `s` of `(n * x - total)^2`. With `n` the length of `s` and
/// `total` its sum, each term is `n^2` times the squared deviation of `x`
/// from the mean, so the population variance of `s` is this over `n^3`.
pub open spec fn dev_sum(s: Seq<u64>, n: int, total: int) -> int
    decreases s.len(),
{
    if s.len() == 0 {
        0
    } else {
        dev_sum(s.drop_last(), n, total) + (n * s.last() - total) * (n * s.last() - total)
    }
}

/// `j` is the population standard deviation of `w` rounded down:
/// `j^2 <= variance < (j + 1)^2`, with the variance `dev_sum / n^3`.
pub open spec fn is_floor_std_dev(w: Seq<u64>, j: int) -> bool {
    let n = w.len() as int;
    let d = dev_sum(w, n, seq_sum(w));
    let n3 = n * n * n;
    j * j * n3 <= d < (j + 1) * (j + 1) * n3
}

/// An engine with nothing recorded, started at `start`.
pub open spec fn fresh_stats(start: u64) -> StatsView {
    StatsView {
        total: 0,
        history: Seq::empty(),
        current_load: 0,
        peak_load: 0,
        avg_load: 0,
        load_window: Seq::empty(),
        last_time: None,
        min_gap: None,
        max_gap: None,
        gap_sum: 0,
        gap_count: 0,
        gap_window: Seq::empty(),
        cob_ids: Map::empty(),
        current_rate: 0,
        peak_rate: 0,
        avg_rate: 0,
        start,
    }
}

/// Full bus load, in hundredths of a percent.
pub const FULL_LOAD: u64 = 10_000;

/// Bus load of `bits` received in `elapsed_us` on a bus of `bitrate` bits per
/// second, in hundredths of a percent, rounded down and capped at 100 %.
pub open spec fn bus_load_spec(bits: u64, elapsed_us: u64, bitrate: u32) -> u64 {
    let l = bits * 1_000_000 * FULL_LOAD / (elapsed_us * bitrate);
    if l > FULL_LOAD {
        FULL_LOAD
    } else {
        l as u64
    }
}

/// The share of the bus's bandwidth that `bits` received over `elapsed_us`
/// microseconds take at `bitrate` bits per second, in hundredths of a
/// percent, capped at full load; none without elapsed time or bit rate.
pub fn bus_load(bits: u64, elapsed_us: u64, bitrate: u32) -> (r: Option<u64>)
    ensures
        r is None <==> elapsed_us == 0 || bitrate == 0,
        r matches Some(l) ==> l == bus_load_spec(bits, elapsed_us, bitrate),
{
    if elapsed_us == 0 || bitrate == 0 {
        return None;
    }
    proof {
        assert(elapsed_us as int * bitrate as int <= u64::MAX as int * u32::MAX as int)
            by (nonlinear_arith)
            requires elapsed_us <= u64::MAX, bitrate <= u32::MAX, elapsed_us >= 0, bitrate >= 0;
        assert(elapsed_us as int * bitrate as int > 0) by (nonlinear_arith)
            requires elapsed_us > 0, bitrate > 0;
        assert(bits as int * 1_000_000 * 10_000 <= u64::MAX as int * 10_000_000_000) by (nonlinear_arith)
            requires bits <= u64::MAX, bits >= 0;
    }
    let l = bits as u128 * 1_000_000 * FULL_LOAD as u128 / (elapsed_us as u128 * bitrate as u128);
    if l > FULL_LOAD as u128 {
        Some(FULL_LOAD)
    } else {
        Some(l as u64)
    }
}

/// Statistics of the frame stream.
#[derive(Clone, Debug)]
pub struct BusStats {
    total_messages: u64,
    messages_history: VecDeque<(u64, u64)>,
    current_load: u64,
    peak_load: u64,
    avg_load: u64,
    load_samples: VecDeque<u64>,
    last_message_time: Option<u64>,
    min_gap: Option<u64>,
    max_gap: Option<u64>,
    gap_sum: u128,
    gap_count: u64,
    gap_history: VecDeque<u64>,
    cob_ids: HashMap<u16, CobIdStats>,
    /// The identifiers seen, in order of first arrival.
    seen_order: Vec<u16>,
    current_msg_rate: u128,
    peak_msg_rate: u128,
    avg_msg_rate: u128,
    start_time: u64,
}

impl View for BusStats {
    type V = StatsView;

    closed spec fn view(&self) -> StatsView {
        StatsView {
            total: self.total_messages,
            history: self.messages_history@,
            current_load: self.current_load,
            peak_load: self.peak_load,
            avg_load: self.avg_load,
            load_window: self.load_samples@,
            last_time: self.last_message_time,
            min_gap: self.min_gap,
            max_gap: self.max_gap,
            gap_sum: self.gap_sum as int,
            gap_count: self.gap_count,
            gap_window: self.gap_history@,
            cob_ids: self.cob_ids@,
            current_rate: self.current_msg_rate,
            peak_rate: self.peak_msg_rate,
            avg_rate: self.avg_msg_rate,
            start: self.start_time,
        }
    }
}

impl BusStats {
    /// The windows are within their caps, the rate window's running totals
    /// never decrease and never exceed the total, gaps stay below the
    /// timestamp bound, and `seen_order` lists each known identifier once.
    pub closed spec fn wf(&self) -> bool {
        &&& forall|i: int, j: int|
            0 <= i <= j < self.messages_history@.len() ==> self.messages_history@[i].1
                <= self.messages_history@[j].1
        &&& forall|i: int|
            0 <= i < self.messages_history@.len() ==> self.messages_history@[i].1
                <= self.total_messages
        &&& self.load_samples@.len() <= LOAD_WINDOW_CAPACITY
        &&& self.gap_history@.len() <= GAP_WINDOW_CAPACITY
        &&& forall|i: int|
            0 <= i < self.gap_history@.len() ==> self.gap_history@[i] < MAX_TIMESTAMP_US
        &&& self.gap_count <= self.total_messages
        &&& self.gap_sum <= self.gap_count as int * MAX_TIMESTAMP_US as int
        &&& (self.last_message_time matches Some(l) ==> l < MAX_TIMESTAMP_US)
        &&& self.seen_order@.no_duplicates()
        &&& forall|k: u16| self.cob_ids@.contains_key(k) <==> self.seen_order@.contains(k)
        &&& forall|k: u16|
            #[trigger] self.cob_ids@.contains_key(k) ==> self.cob_ids@[k].count
                <= self.total_messages
    }

    /// An engine with nothing recorded, started at `start_us`.
    pub fn new(start_us: u64) -> (r: BusStats)
        ensures
            r.wf(),
            r@ == fresh_stats(start_us),
    {
        BusStats {
            total_messages: 0,
            messages_history: VecDeque::new(),
            current_load: 0,
            peak_load: 0,
            avg_load: 0,
            load_samples: VecDeque::new(),
            last_message_time: None,
            min_gap: None,
            max_gap: None,
            gap_sum: 0,
            gap_count: 0,
            gap_history: VecDeque::new(),
            cob_ids: HashMap::new(),
            seen_order: Vec::new(),
            current_msg_rate: 0,
            peak_msg_rate: 0,
            avg_msg_rate: 0,
            start_time: start_us,
        }
    }

    /// Records a message with identifier `cob_id` that arrived at
    /// `timestamp_us`: counts it, measures the gap to the previous message
    /// (min, max, running sum, and the bounded gap window), records when the
    /// identifier was last seen, and appends to the rate window, dropping the
    /// entries more than five seconds older than this one.
    pub fn on_message(&mut self, cob_id: u16, timestamp_us: u64)
        requires
            old(self).wf(),
            old(self)@.total < u64::MAX,
            timestamp_us < MAX_TIMESTAMP_US,
        ensures
            final(self).wf(),
            final(self)@ == on_message_step(old(self)@, cob_id, timestamp_us),
    {
        let ghost v = self@;
        let ghost seen0 = self.seen_order@;
        proof {
            assert(obeys_key_model::<u16>());
            assert(builds_valid_hashers::<RandomState>());
        }
        self.total_messages = self.total_messages + 1;
        let entry = match self.cob_ids.get(&cob_id) {
            Some(e) => CobIdStats {
                count: e.count + 1,
                last_seen_us: timestamp_us,
                rate_mhz: e.rate_mhz,
            },
            None => {
                self.seen_order.push(cob_id);
                CobIdStats { count: 1, last_seen_us: timestamp_us, rate_mhz: None }
            },
        };
        self.cob_ids.insert(cob_id, entry);
        if let Some(last) = self.last_message_time {
            let gap = if timestamp_us > last {
                timestamp_us - last
            } else {
                0
            };
            self.min_gap = Some(
                match self.min_gap {
                    Some(m) => if gap < m {
                        gap
                    } else {
                        m
                    },
                    None => gap,
                },
            );
            self.max_gap = Some(
                match self.max_gap {
                    Some(m) => if gap > m {
                        gap
                    } else {
                        m
                    },
                    None => gap,
                },
            );
            self.gap_sum = self.gap_sum + gap as u128;
            self.gap_count = self.gap_count + 1;
            self.gap_history.push_back(gap);
            if self.gap_history.len() > GAP_WINDOW_CAPACITY {
                let _ = self.gap_history.pop_front();
            }
            assert(self.gap_history@ =~= bounded_push(v.gap_window, gap, GAP_WINDOW_CAPACITY as nat));
        }
        self.last_message_time = Some(timestamp_us);
        self.messages_history.push_back((timestamp_us, self.total_messages));
        prune_stale(&mut self.messages_history, timestamp_us);
        proof {
            let seen = self.seen_order@;
            if v.cob_ids.contains_key(cob_id) {
                assert(seen == seen0);
            } else {
                assert(seen == seen0.push(cob_id));
                assert(!seen0.contains(cob_id));
                assert forall|i: int, j: int| 0 <= i < j < seen.len() implies seen[i] != seen[j] by {
                    if j == seen0.len() {
                        assert(seen0.contains(seen[i]));
                    }
                }
                assert forall|k: u16| seen.contains(k) implies k == cob_id || seen0.contains(k) by {
                    let i = choose|i: int| 0 <= i < seen.len() && seen[i] == k;
                    if i < seen0.len() {
                        assert(seen0[i] == k);
                    }
                }
                assert(seen[seen0.len() as int] == cob_id);
                assert forall|k: u16| seen0.contains(k) implies seen.contains(k) by {
                    let i = choose|i: int| 0 <= i < seen0.len() && seen0[i] == k;
                    assert(seen[i] == k);
                }
            }
        }
    }

    /// Records a load sample, in hundredths of a percent: the current load,
    /// the all-time peak, and the mean over the last hundred samples.
    pub fn update_load(&mut self, load: u64)
        requires
            old(self).wf(),
        ensures
            final(self).wf(),
            final(self)@ == update_load_step(old(self)@, load),
    {
        let ghost v = self@;
        self.current_load = load;
        if load > self.peak_load {
            self.peak_load = load;
        }
        self.load_samples.push_back(load);
        if self.load_samples.len() > LOAD_WINDOW_CAPACITY {
            let _ = self.load_samples.pop_front();
        }
        assert(self.load_samples@ =~= bounded_push(v.load_window, load, LOAD_WINDOW_CAPACITY as nat));
        let sum = window_sum(&self.load_samples);
        let n = self.load_samples.len() as u128;
        proof {
            let w = self.load_samples@;
            lemma_seq_sum_bound(w, u64::MAX as int);
            vstd::arithmetic::div_mod::lemma_div_is_ordered(
                sum as int,
                n * (u64::MAX as int),
                n as int,
            );
            vstd::arithmetic::div_mod::lemma_div_multiples_vanish(u64::MAX as int, n as int);
        }
        self.avg_load = (sum / n) as u64;
    }

    /// Computes the message rate at `now` from the endpoints of the rate
    /// window, updates the peak, and the average rate since start.
    pub fn calculate_msg_rate(&mut self, now_us: u64)
        requires
            old(self).wf(),
        ensures
            final(self).wf(),
            final(self)@ == msg_rate_step(old(self)@, now_us),
    {
        let n = self.messages_history.len();
        if n < 2 {
            self.current_msg_rate = 0;
            return;
        }
        let (first_time, first_count) = self.messages_history[0];
        let (last_time, last_count) = self.messages_history[n - 1];
        let span = if last_time > first_time {
            last_time - first_time
        } else {
            0
        };
        if span > 0 {
            let diff = (last_count - first_count) as u128;
            let rate = diff * MILLIHERTZ_SCALE / span as u128;
            self.current_msg_rate = rate;
            if rate > self.peak_msg_rate {
                self.peak_msg_rate = rate;
            }
            let since_start = if now_us > self.start_time {
                now_us - self.start_time
            } else {
                0
            };
            if since_start > 0 {
                self.avg_msg_rate = self.total_messages as u128 * MILLIHERTZ_SCALE
                    / since_start as u128;
            }
        }
    }

    /// Computes per-identifier rates at `now`: once more than a second has
    /// elapsed since start, each identifier seen gets its count divided by the
    /// whole elapsed time (not the time since it was first seen).
    pub fn calculate_cob_id_rates(&mut self, now_us: u64)
        requires
            old(self).wf(),
        ensures
            final(self).wf(),
            final(self)@ == cob_id_rates_step(old(self)@, now_us),
    {
        let e = if now_us > self.start_time {
            now_us - self.start_time
        } else {
            0
        };
        if e <= COB_ID_RATE_MIN_ELAPSED_US {
            return;
        }
        set_rates(&mut self.cob_ids, &self.seen_order, e);
        assert(self.cob_ids@ =~= cob_id_rates_step(old(self)@, now_us).cob_ids);
    }

    /// The `n` identifiers with the highest computed rates, as (identifier,
    /// rate in millihertz) pairs, highest first; equal rates are ordered by
    /// identifier, lowest first.
    pub fn get_top_cob_ids(&self, n: usize) -> (r: Vec<(u16, u128)>)
        requires
            self.wf(),
        ensures
            is_top_rates(self@.cob_ids, n as nat, r@),
    {
        let entries = rated_entries(&self.cob_ids, &self.seen_order);
        let ghost m = self@.cob_ids;
        let mut r: Vec<(u16, u128)> = Vec::new();
        let mut done = false;
        while r.len() < n && !done
            invariant
                r@.len() <= n,
                forall|j: int|
                    0 <= j < entries@.len() ==> is_rated(m, #[trigger] entries@[j].0)
                        && m[entries@[j].0].rate_mhz == Some(entries@[j].1),
                forall|a: int, b: int| 0 <= a < b < entries@.len() ==> entries@[a].0 != entries@[b].0,
                forall|k: u16| #[trigger] is_rated(m, k) ==> is_listed(entries@, k),
                forall|i: int|
                    0 <= i < r@.len() ==> is_rated(m, #[trigger] r@[i].0) && m[r@[i].0].rate_mhz
                        == Some(r@[i].1),
                forall|i: int, j: int| 0 <= i < j < r@.len() ==> ranks_before(r@[i], r@[j]),
                forall|j: int|
                    0 <= j < entries@.len() && !is_listed(r@, #[trigger] entries@[j].0) ==> r@.len()
                        > 0 ==> ranks_before(r@[r@.len() - 1], entries@[j]),
                done ==> forall|j: int|
                    0 <= j < entries@.len() ==> is_listed(r@, #[trigger] entries@[j].0),
            decreases (n - r@.len()) * 2 + if done {
                0int
            } else {
                1int
            },
        {
            let ghost r0 = r@;
            let mut best: Option<(u16, u128)> = None;
            let mut j: usize = 0;
            while j < entries.len()
                invariant
                    j <= entries@.len(),
                    r@ == r0,
                    best matches Some(b) ==> (exists|jj: int|
                        0 <= jj < j && #[trigger] entries@[jj] == b) && (r@.len() == 0
                        || ranks_before(r@[r@.len() - 1], b)),
                    forall|jj: int|
                        0 <= jj < j && (r@.len() == 0 || ranks_before(
                            r@[r@.len() - 1],
                            #[trigger] entries@[jj],
                        )) ==> (best matches Some(b) && !ranks_before(entries@[jj], b)),
                decreases entries@.len() - j,
            {
                let e = entries[j];
                let eligible = r.len() == 0 || ranks_before_exec(r[r.len() - 1], e);
                if eligible {
                    match best {
                        Some(b) => {
                            if ranks_before_exec(e, b) {
                                best = Some(e);
                            }
                        },
                        None => {
                            best = Some(e);
                        },
                    }
                }
                j = j + 1;
            }
            match best {
                Some(b) => {
                    proof {
                        let jb = choose|jj: int| 0 <= jj < entries@.len() && #[trigger] entries@[jj] == b;
                        assert(!is_listed(r0, b.0)) by {
                            if is_listed(r0, b.0) {
                                let i = choose|i: int| 0 <= i < r0.len() && #[trigger] r0[i].0 == b.0;
                                assert(r0[i] == b);
                                if i < r0.len() - 1 {
                                    assert(ranks_before(r0[i], r0[r0.len() - 1]));
                                }
                            }
                        }
                    }
                    r.push(b);
                    proof {
                        let jb = choose|jj: int| 0 <= jj < entries@.len() && #[trigger] entries@[jj] == b;
                        assert forall|i: int, k: int| 0 <= i < k < r@.len() implies ranks_before(
                            r@[i],
                            r@[k],
                        ) by {
                            if k == r0.len() && i < r0.len() - 1 {
                                assert(ranks_before(r0[i], r0[r0.len() - 1]));
                            }
                        }
                        assert forall|jj: int|
                            0 <= jj < entries@.len() && !is_listed(
                                r@,
                                #[trigger] entries@[jj].0,
                            ) implies ranks_before(r@[r@.len() - 1], entries@[jj]) by {
                            let e = entries@[jj];
                            if is_listed(r0, e.0) {
                                let i = choose|i: int| 0 <= i < r0.len() && #[trigger] r0[i].0 == e.0;
                                assert(r@[i].0 == e.0);
                            }
                            assert(e.0 != b.0) by {
                                assert(r@[r0.len() as int].0 == b.0);
                            }
                        }
                        assert forall|jj: int|
                            0 <= jj < entries@.len() && is_listed(r0, #[trigger] entries@[jj].0)
                                implies is_listed(r@, entries@[jj].0) by {
                            let i = choose|i: int| 0 <= i < r0.len() && #[trigger] r0[i].0 == entries@[jj].0;
                            assert(r@[i] == r0[i]);
                        }
                    }
                },
                None => {
                    done = true;
                },
            }
        }
        proof {
            assert forall|k: u16| #[trigger] is_rated(m, k) && !is_listed(r@, k) implies r@.len() == n
                && (n > 0 ==> ranks_before(r@[n - 1], (k, m[k].rate_mhz->Some_0))) by {
                let j = choose|j: int| 0 <= j < entries@.len() && #[trigger] entries@[j].0 == k;
                assert(entries@[j] == (k, m[k].rate_mhz->Some_0));
            }
        }
        r
    }

    pub fn total_messages(&self) -> (r: u64)
        ensures
            r == self@.total,
    {
        self.total_messages
    }

    /// Latest load sample, in hundredths of a percent.
    pub fn current_load(&self) -> (r: u64)
        ensures
            r == self@.current_load,
    {
        self.current_load
    }

    /// Highest load sample so far, in hundredths of a percent.
    pub fn peak_load(&self) -> (r: u64)
        ensures
            r == self@.peak_load,
    {
        self.peak_load
    }

    /// Mean of the last hundred load samples, in hundredths of a percent.
    pub fn avg_load(&self) -> (r: u64)
        ensures
            r == self@.avg_load,
    {
        self.avg_load
    }

    /// Smallest inter-frame gap so far, in microseconds.
    pub fn min_gap(&self) -> (r: Option<u64>)
        ensures
            r == self@.min_gap,
    {
        self.min_gap
    }

    /// Largest inter-frame gap so far, in microseconds.
    pub fn max_gap(&self) -> (r: Option<u64>)
        ensures
            r == self@.max_gap,
    {
        self.max_gap
    }

    /// Mean of all inter-frame gaps so far, in microseconds; none before the
    /// second message.
    pub fn avg_gap(&self) -> (r: Option<u64>)
        requires
            self.wf(),
        ensures
            r == if self@.gap_count > 0 {
                Some((self@.gap_sum / self@.gap_count as int) as u64)
            } else {
                None::<u64>
            },
    {
        if self.gap_count == 0 {
            return None;
        }
        let c = self.gap_count as u128;
        proof {
            vstd::arithmetic::div_mod::lemma_div_is_ordered(
                self.gap_sum as int,
                c * MAX_TIMESTAMP_US as int,
                c as int,
            );
            vstd::arithmetic::div_mod::lemma_div_multiples_vanish(MAX_TIMESTAMP_US as int, c as int);
        }
        Some((self.gap_sum / c) as u64)
    }

    /// Jitter: the population standard deviation of the last thousand
    /// inter-frame gaps, in microseconds rounded down; none with fewer than
    /// two gaps.
    pub fn jitter(&self) -> (r: Option<u64>)
        requires
            self.wf(),
        ensures
            r is None <==> self@.gap_window.len() < 2,
            r matches Some(j) ==> is_floor_std_dev(self@.gap_window, j as int),
    {
        let n = self.gap_history.len();
        if n < 2 {
            return None;
        }
        let ghost w = self.gap_history@;
        let total = window_sum(&self.gap_history);
        let nn = n as u128;
        proof {
            lemma_seq_sum_bound(w, MAX_TIMESTAMP_US - 1);
            assert(total < nn * MAX_TIMESTAMP_US) by (nonlinear_arith)
                requires total <= nn * (MAX_TIMESTAMP_US - 1), nn >= 2;
        }
        let mut d: u128 = 0;
        let mut i: usize = 0;
        while i < n
            invariant
                n == w.len(),
                w == self.gap_history@,
                2 <= n <= GAP_WINDOW_CAPACITY,
                nn == n,
                i <= n,
                total == seq_sum(w),
                total < nn * MAX_TIMESTAMP_US,
                forall|k: int| 0 <= k < w.len() ==> w[k] < MAX_TIMESTAMP_US,
                d == dev_sum(w.take(i as int), n as int, total as int),
                d <= i * (nn * nn * 0x1_0000_0000_0000_0000_0000_0000),
            decreases n - i,
        {
            let g = self.gap_history[i] as u128;
            proof {
                assert(nn * g < nn * MAX_TIMESTAMP_US) by (nonlinear_arith)
                    requires g < MAX_TIMESTAMP_US, nn >= 2;
            }
            let x = nn * g;
            let diff = if x >= total {
                x - total
            } else {
                total - x
            };
            proof {
                let b = nn * MAX_TIMESTAMP_US;
                assert(diff < b);
                assert(diff * diff < nn * nn * 0x1_0000_0000_0000_0000_0000_0000) by (nonlinear_arith)
                    requires diff < b, b == nn * 0x1_0000_0000_0000, diff >= 0;
                assert(diff * diff == (x - total) * (x - total)) by (nonlinear_arith)
                    requires diff == x - total || diff == total - x;
                assert(w.take(i + 1).drop_last() =~= w.take(i as int));
                assert((i + 1) * (nn * nn * 0x1_0000_0000_0000_0000_0000_0000) == i * (nn * nn
                    * 0x1_0000_0000_0000_0000_0000_0000) + nn * nn * 0x1_0000_0000_0000_0000_0000_0000)
                    by (nonlinear_arith);
                assert((i + 1) * (nn * nn * 0x1_0000_0000_0000_0000_0000_0000) <= 1000 * (1000
                    * 1000 * 0x1_0000_0000_0000_0000_0000_0000)) by (nonlinear_arith)
                    requires i + 1 <= 1000, nn <= 1000;
            }
            d = d + diff * diff;
            i = i + 1;
        }
        assert(w.take(n as int) =~= w);
        proof {
            assert(nn * nn <= 1_000_000) by (nonlinear_arith)
                requires nn <= 1000;
            assert(nn * nn * nn <= 1_000_000_000) by (nonlinear_arith)
                requires nn <= 1000, nn * nn <= 1_000_000;
        }
        let n3 = nn * nn * nn;
        proof {
            assert(n3 <= 1_000_000_000) by (nonlinear_arith)
                requires n3 == nn * nn * nn, nn <= 1000;
            assert(n3 >= 8) by (nonlinear_arith)
                requires n3 == nn * nn * nn, nn >= 2;
            assert(d < 0x2_0000_0000_0000 * 0x2_0000_0000_0000 * n3) by (nonlinear_arith)
                requires d <= nn * (nn * nn * 0x1_0000_0000_0000_0000_0000_0000), n3 == nn * nn * nn,
                    n3 >= 8;
        }
        let mut lo: u128 = 0;
        let mut hi: u128 = 0x2_0000_0000_0000;
        assert(lo * lo * n3 == 0) by (nonlinear_arith)
            requires lo == 0;
        while hi - lo > 1
            invariant
                lo < hi <= 0x2_0000_0000_0000,
                1 <= n3 <= 1_000_000_000,
                lo * lo * n3 <= d,
                d < hi * hi * n3,
            decreases hi - lo,
        {
            let mid = lo + (hi - lo) / 2;
            proof {
                assert(mid * mid <= 0x2_0000_0000_0000 * 0x2_0000_0000_0000) by (nonlinear_arith)
                    requires mid <= 0x2_0000_0000_0000, mid >= 0;
                assert(mid * mid * n3 <= 0x2_0000_0000_0000 * 0x2_0000_0000_0000 * 1_000_000_000)
                    by (nonlinear_arith)
                    requires mid * mid <= 0x2_0000_0000_0000 * 0x2_0000_0000_0000, n3 <= 1_000_000_000, mid >= 0, n3 >= 1;
            }
            if mid * mid * n3 <= d {
                lo = mid;
            } else {
                hi = mid;
            }
        }
        Some(lo as u64)
    }

    /// Latest message rate, in millihertz.
    pub fn current_msg_rate(&self) -> (r: u128)
        ensures
            r == self@.current_rate,
    {
        self.current_msg_rate
    }

    /// Highest message rate computed so far, in millihertz.
    pub fn peak_msg_rate(&self) -> (r: u128)
        ensures
            r == self@.peak_rate,
    {
        self.peak_msg_rate
    }

    /// Total messages over the time since start, in millihertz, as of the
    /// latest rate computation.
    pub fn avg_msg_rate(&self) -> (r: u128)
        ensures
            r == self@.avg_rate,
    {
        self.avg_msg_rate
    }
}

/// The gap recorded for a message is exactly the time since the previous
/// message; after the first two messages of a fresh engine the smallest and
/// the largest gap both equal that single gap, and with one gap in the window
/// there is no jitter yet.
pub proof fn lemma_gap_of_two_messages(start: u64, id1: u16, t1: u64, id2: u16, t2: u64, v: StatsView)
    requires
        t1 < t2,
        v.last_time == Some(t1),
    ensures
        on_message_step(v, id2, t2).gap_window.last() == t2 - t1,
        on_message_step(v, id2, t2).gap_sum == v.gap_sum + (t2 - t1),
        ({
            let after = on_message_step(on_message_step(fresh_stats(start), id1, t1), id2, t2);
            &&& after.min_gap == Some((t2 - t1) as u64)
            &&& after.max_gap == Some((t2 - t1) as u64)
            &&& after.gap_window == seq![(t2 - t1) as u64]
            &&& after.gap_window.len() < 2
        }),
{
    let first = on_message_step(fresh_stats(start), id1, t1);
    assert(first.gap_window == Seq::<u64>::empty());
    assert(on_message_step(first, id2, t2).gap_window =~= seq![(t2 - t1) as u64]);
}

/// The gap and load windows never exceed their caps: recording a message
/// or a load sample keeps them within a thousand and a hundred entries.
pub proof fn lemma_windows_stay_bounded(v: StatsView, id: u16, t: u64, load: u64)
    requires
        v.gap_window.len() <= GAP_WINDOW_CAPACITY,
        v.load_window.len() <= LOAD_WINDOW_CAPACITY,
    ensures
        on_message_step(v, id, t).gap_window.len() <= GAP_WINDOW_CAPACITY,
        on_message_step(v, id, t).load_window.len() <= LOAD_WINDOW_CAPACITY,
        update_load_step(v, load).gap_window.len() <= GAP_WINDOW_CAPACITY,
        update_load_step(v, load).load_window.len() <= LOAD_WINDOW_CAPACITY,
{
}

} // verus!

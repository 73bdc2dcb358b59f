//! Fixed-capacity history of received frames.

use std::collections::VecDeque;
use vstd::math::min;
use vstd::prelude::*;

verus! {

/// Number of frames the log keeps; older ones are evicted first.
pub const MESSAGE_LOG_CAPACITY: usize = 512;

/// A frame as it arrived from the bus.
///
/// `timestamp_us` is the arrival time in microseconds on the caller's
/// monotonic clock.
#[derive(Clone, Debug)]
pub struct RawFrame {
    pub cob_id: u16,
    pub data: Vec<u8>,
    pub timestamp_us: u64,
}

/// A received frame together with its ingestion sequence index.
#[derive(Clone, Debug)]
pub struct CachedMessage {
    pub index: u64,
    pub frame: RawFrame,
}

/// What the log holds after pushing `m` onto a log holding `s`.
pub open spec fn log_push(s: Seq<CachedMessage>, m: CachedMessage) -> Seq<CachedMessage> {
    if s.len() + 1 > MESSAGE_LOG_CAPACITY {
        s.push(m).drop_first()
    } else {
        s.push(m)
    }
}

/// What the log holds after pushing every element of `ms`, in order, onto a
/// log holding `s`.
pub open spec fn log_push_all(s: Seq<CachedMessage>, ms: Seq<CachedMessage>) -> Seq<
    CachedMessage,
>
    decreases ms.len(),
{
    if ms.len() == 0 {
        s
    } else {
        log_push(log_push_all(s, ms.drop_last()), ms.last())
    }
}

/// The entries' sequence indices increase strictly from oldest to newest.
pub open spec fn indices_increasing(s: Seq<CachedMessage>) -> bool {
    forall|i: int, j: int| 0 <= i < j < s.len() ==> s[i].index < s[j].index
}

/// FIFO of the most recently received frames, at most
/// `MESSAGE_LOG_CAPACITY` long, oldest first.
#[derive(Clone, Debug)]
pub struct BoundedMessageLog {
    entries: VecDeque<CachedMessage>,
}

impl View for BoundedMessageLog {
    type V = Seq<CachedMessage>;

    closed spec fn view(&self) -> Seq<CachedMessage> {
        self.entries@
    }
}

impl BoundedMessageLog {
    /// The log never holds more than its capacity.
    pub closed spec fn wf(&self) -> bool {
        self.entries@.len() <= MESSAGE_LOG_CAPACITY
    }

    /// A well-formed log is within its capacity.
    pub proof fn lemma_within_capacity(&self)
        requires
            self.wf(),
        ensures
            self@.len() <= MESSAGE_LOG_CAPACITY,
    {
    }

    pub fn new() -> (r: Self)
        ensures
            r.wf(),
            r@ == Seq::<CachedMessage>::empty(),
    {
        BoundedMessageLog { entries: VecDeque::new() }
    }

    /// Appends `m`; once the log is over capacity the oldest entry is evicted.
    pub fn push(&mut self, m: CachedMessage)
        requires
            old(self).wf(),
        ensures
            final(self).wf(),
            final(self)@ == log_push(old(self)@, m),
    {
        self.entries.push_back(m);
        if self.entries.len() > MESSAGE_LOG_CAPACITY {
            let _ = self.entries.pop_front();
        }
    }

    pub fn len(&self) -> (r: usize)
        requires
            self.wf(),
        ensures
            r == self@.len(),
            r <= MESSAGE_LOG_CAPACITY,
    {
        self.entries.len()
    }

    /// The entry at position `i`, counted from the oldest.
    pub fn get(&self, i: usize) -> (r: &CachedMessage)
        requires
            i < self@.len(),
        ensures
            *r == self@[i as int],
    {
        &self.entries[i]
    }

    /// The entries, oldest first.
    pub fn entries(&self) -> (r: &VecDeque<CachedMessage>)
        ensures
            r@ == self@,
    {
        &self.entries
    }
}

/// The log stays within its capacity, and after any run of pushes onto an
/// empty log it holds exactly the most recent `min(n, capacity)` of them,
/// oldest first; pushing entries with increasing indices keeps the log's
/// indices increasing.
pub proof fn lemma_log_keeps_most_recent(ms: Seq<CachedMessage>)
    ensures
        log_push_all(Seq::empty(), ms) == ms.subrange(
            ms.len() - min(ms.len() as int, MESSAGE_LOG_CAPACITY as int),
            ms.len() as int,
        ),
        ms.len() >= MESSAGE_LOG_CAPACITY ==> log_push_all(Seq::empty(), ms).len()
            == MESSAGE_LOG_CAPACITY,
        indices_increasing(ms) ==> indices_increasing(log_push_all(Seq::empty(), ms)),
    decreases ms.len(),
{
    if ms.len() > 0 {
        lemma_log_keeps_most_recent(ms.drop_last());
        let prev = ms.drop_last();
        let k = min(prev.len() as int, MESSAGE_LOG_CAPACITY as int);
        assert(log_push_all(Seq::empty(), prev) == prev.subrange(prev.len() - k, prev.len() as int));
        if prev.len() >= MESSAGE_LOG_CAPACITY {
            assert(log_push_all(Seq::empty(), ms) =~= ms.subrange(
                ms.len() - MESSAGE_LOG_CAPACITY,
                ms.len() as int,
            ));
        } else {
            assert(log_push_all(Seq::empty(), ms) =~= ms.subrange(0, ms.len() as int));
        }
    }
    let r = log_push_all(Seq::empty(), ms);
    assert(r == ms.subrange(
        ms.len() - min(ms.len() as int, MESSAGE_LOG_CAPACITY as int),
        ms.len() as int,
    ));
    if indices_increasing(ms) {
        let lo = ms.len() - min(ms.len() as int, MESSAGE_LOG_CAPACITY as int);
        assert forall|i: int, j: int| 0 <= i < j < r.len() implies r[i].index < r[j].index by {
            assert(r[i] == ms[lo + i]);
            assert(r[j] == ms[lo + j]);
        }
    }
}

} // verus!

//! Rate-limited FIFO dispatcher: an unbounded queue of pending notification
//! codes and a wake handler that releases at most one item per minimum
//! interval, never reordering and never banking idle time.

use vstd::prelude::*;
use std::collections::VecDeque;
use crate::MIN_SEND_INTERVAL_MS;

verus! {

/// Dispatcher state: pending queue, time of the last send in milliseconds on
/// a monotonic clock, and the (ghost) log of everything released so far.
pub struct Dispatcher {
    queue: VecDeque<usize>,
    last_send: Option<u64>,
    sent: Ghost<Seq<usize>>,
}

/// Mathematical image of a `Dispatcher`.
pub struct DispatcherView {
    pub queue: Seq<usize>,
    pub last_send: Option<u64>,
    pub sent: Seq<usize>,
}

impl View for Dispatcher {
    type V = DispatcherView;

    closed spec fn view(&self) -> DispatcherView {
        DispatcherView { queue: self.queue@, last_send: self.last_send, sent: self.sent@ }
    }
}

/// A send is allowed at `now` if none happened yet or the minimum interval
/// has fully passed since the last one.
pub open spec fn eligible(last_send: Option<u64>, now: u64) -> bool {
    match last_send {
        None => true,
        Some(t) => now >= t + MIN_SEND_INTERVAL_MS,
    }
}

/// One wake of the dispatch loop: when a send is allowed and something is
/// pending, the head of the queue is released and the send time recorded;
/// otherwise nothing changes — in particular, an idle wake does not record a
/// time, so waiting never banks allowance.
pub open spec fn tick_spec(d: DispatcherView, now: u64) -> (DispatcherView, Option<usize>) {
    if eligible(d.last_send, now) && d.queue.len() > 0 {
        (
            DispatcherView {
                queue: d.queue.drop_first(),
                last_send: Some(now),
                sent: d.sent.push(d.queue[0]),
            },
            Some(d.queue[0]),
        )
    } else {
        (d, None)
    }
}

impl Dispatcher {
    /// A fresh dispatcher: nothing pending, nothing sent, no send time.
    pub fn new() -> (d: Self)
        ensures
            d@.queue == Seq::<usize>::empty(),
            d@.last_send is None,
            d@.sent == Seq::<usize>::empty(),
    {
        Dispatcher { queue: VecDeque::new(), last_send: None, sent: Ghost(Seq::empty()) }
    }

    /// Append a payload at the tail. Always succeeds: the queue is unbounded.
    pub fn enqueue(&mut self, number: usize)
        ensures
            final(self)@.queue == old(self)@.queue.push(number),
            final(self)@.last_send == old(self)@.last_send,
            final(self)@.sent == old(self)@.sent,
    {
        self.queue.push_back(number);
    }

    /// Drop every pending payload; the send time and the history of already
    /// released items are untouched.
    pub fn clear_osc_queue(&mut self)
        ensures
            final(self)@.queue == Seq::<usize>::empty(),
            final(self)@.last_send == old(self)@.last_send,
            final(self)@.sent == old(self)@.sent,
    {
        self.queue.clear();
    }

    /// Forget the last send time, so the next eligible item is released at
    /// once instead of waiting out a stale interval.
    pub fn reset_timer(&mut self)
        ensures
            final(self)@.queue == old(self)@.queue,
            final(self)@.last_send is None,
            final(self)@.sent == old(self)@.sent,
    {
        self.last_send = None;
    }

    /// How many payloads are pending.
    pub fn pending(&self) -> (n: usize)
        ensures
            n == self@.queue.len(),
    {
        self.queue.len()
    }

    /// One wake at time `now`: returns the item to transmit, if any. The
    /// caller transmits after this returns, so the recorded send time never
    /// shrinks the enforced gap.
    pub fn tick(&mut self, now: u64) -> (send: Option<usize>)
        ensures
            (final(self)@, send) == tick_spec(old(self)@, now),
    {
        let allowed = match self.last_send {
            None => true,
            Some(t) => now >= t && now - t >= MIN_SEND_INTERVAL_MS,
        };
        if allowed {
            match self.queue.pop_front() {
                Some(item) => {
                    self.last_send = Some(now);
                    proof {
                        self.sent@ = self.sent@.push(item);
                    }
                    return Some(item);
                },
                None => {
                    return None;
                },
            }
        }
        None
    }
}

/// Two consecutive releases are at least the minimum interval apart.
pub proof fn lemma_min_send_interval(d: DispatcherView, t1: u64, t2: u64)
    requires
        tick_spec(d, t1).1 is Some,
        tick_spec(tick_spec(d, t1).0, t2).1 is Some,
    ensures
        t2 >= t1 + MIN_SEND_INTERVAL_MS,
{
}

/// The dispatcher after a series of wakes at the given times.
pub open spec fn run_ticks(d: DispatcherView, times: Seq<u64>) -> DispatcherView
    decreases times.len(),
{
    if times.len() == 0 {
        d
    } else {
        run_ticks(tick_spec(d, times[0]).0, times.drop_first())
    }
}

/// Any series of wakes releases a prefix of the pending queue, in exact FIFO
/// order: what was sent grows only by items taken from the head.
pub proof fn lemma_fifo(d: DispatcherView, times: Seq<u64>)
    ensures
        ({
            let d2 = run_ticks(d, times);
            let k = d2.sent.len() - d.sent.len();
            &&& 0 <= k <= d.queue.len()
            &&& d2.sent == d.sent + d.queue.take(k)
            &&& d2.queue == d.queue.skip(k)
        }),
    decreases times.len(),
{
    let d2 = run_ticks(d, times);
    if times.len() == 0 {
        assert(d2.sent =~= d.sent + d.queue.take(0));
        assert(d2.queue =~= d.queue.skip(0));
    } else {
        let (d1, r) = tick_spec(d, times[0]);
        lemma_fifo(d1, times.drop_first());
        let k1 = d2.sent.len() - d1.sent.len();
        if r is Some {
            let k = d2.sent.len() - d.sent.len();
            assert(k == k1 + 1);
            assert(d1.queue.take(k1) =~= d.queue.skip(1).take(k1));
            assert(d2.sent =~= d.sent + d.queue.take(k)) by {
                assert(d1.sent + d1.queue.take(k1) =~= d.sent + d.queue.take(k));
            }
            assert(d2.queue =~= d.queue.skip(k)) by {
                assert(d.queue.skip(1).skip(k1) =~= d.queue.skip(k));
            }
        } else {
            assert(d1 == d);
        }
    }
}

} // verus!

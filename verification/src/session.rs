//! A watch session: the round state, the dispatcher and the immutable target
//! set of one watch, with the line-processing pipeline of the tail loop and
//! the control operations of the front end.

use vstd::prelude::*;
use crate::bytes::contains_seq;
use crate::classifier::{
    classify_line, death_name, line_events, events_view, round_over_marker, round_start_marker,
    EventSpec,
};
use crate::dispatch::Dispatcher;
use crate::round::{
    lemma_step_preserves_wf, notices_view, step, targets_view, toggle_spec, Notice, NoticeSpec,
    RoundState, StateSpec, Target, TargetSpec,
};

verus! {

/// Outcome of feeding events to a session: the round state, the pending
/// queue, and the notifications requested, in order.
pub struct Outcome {
    pub state: StateSpec,
    pub queue: Seq<usize>,
    pub notices: Seq<NoticeSpec>,
}

/// One event applied to state and queue: the step's decisions carried out.
pub open spec fn apply_event(
    s: StateSpec,
    q: Seq<usize>,
    ev: EventSpec,
    targets: Seq<TargetSpec>,
) -> Outcome {
    let st = step(s, ev, targets);
    let cleared = if st.clear_queue {
        Seq::<usize>::empty()
    } else {
        q
    };
    let queue = match st.enqueue {
        Some(n) => cleared.push(n),
        None => cleared,
    };
    Outcome { state: st.state, queue, notices: st.notices }
}

/// A sequence of events applied in order, notifications concatenated.
pub open spec fn apply_events(
    s: StateSpec,
    q: Seq<usize>,
    evs: Seq<EventSpec>,
    targets: Seq<TargetSpec>,
) -> Outcome
    decreases evs.len(),
{
    if evs.len() == 0 {
        Outcome { state: s, queue: q, notices: Seq::empty() }
    } else {
        let first = apply_event(s, q, evs[0], targets);
        let rest = apply_events(first.state, first.queue, evs.drop_first(), targets);
        Outcome { state: rest.state, queue: rest.queue, notices: first.notices + rest.notices }
    }
}

/// What one raw line does to a session.
pub open spec fn line_outcome(
    s: StateSpec,
    q: Seq<usize>,
    line: Seq<u8>,
    targets: Seq<TargetSpec>,
) -> Outcome {
    apply_events(s, q, line_events(line), targets)
}

/// Processing any sequence of events keeps the round state well-formed: a
/// live round still implies recording, whatever a line held.
pub proof fn lemma_apply_events_preserves_wf(
    s: StateSpec,
    q: Seq<usize>,
    evs: Seq<EventSpec>,
    targets: Seq<TargetSpec>,
)
    requires
        s.wf(),
    ensures
        apply_events(s, q, evs, targets).state.wf(),
    decreases evs.len(),
{
    if evs.len() != 0 {
        let first = apply_event(s, q, evs[0], targets);
        lemma_step_preserves_wf(s, evs[0], targets);
        lemma_apply_events_preserves_wf(first.state, first.queue, evs.drop_first(), targets);
    }
}

/// A line holding the round-over marker, processed during a recording round,
/// ends the round whatever else the line holds: recording and in-round drop,
/// and the first two notifications are the round end and the reset.
pub proof fn lemma_round_over_line_ends_round(
    s: StateSpec,
    q: Seq<usize>,
    line: Seq<u8>,
    targets: Seq<TargetSpec>,
)
    requires
        s.recording,
        s.in_round,
        contains_seq(line, round_over_marker()),
    ensures
        ({
            let o = line_outcome(s, q, line, targets);
            &&& !o.state.recording
            &&& !o.state.in_round
            &&& o.notices.len() >= 2
            &&& o.notices[0] == NoticeSpec::RoundOver
            &&& o.notices[1] == NoticeSpec::ResetHit
        }),
{
    let evs = line_events(line);
    let death: Seq<EventSpec> = match death_name(line) {
        Some(n) => seq![EventSpec::Death(n)],
        None => Seq::empty(),
    };
    if contains_seq(line, round_start_marker()) {
        assert(evs[0] == EventSpec::RoundStarted);
        let o0 = apply_event(s, q, evs[0], targets);
        assert(o0.state == s);
        assert(evs.drop_first() =~= seq![EventSpec::RoundOver] + death);
        lemma_over_then_death(s, o0.queue, death, targets);
        let rest = apply_events(o0.state, o0.queue, evs.drop_first(), targets);
        assert(line_outcome(s, q, line, targets).notices =~= o0.notices + rest.notices);
        assert((o0.notices + rest.notices)[0] == rest.notices[0]);
        assert((o0.notices + rest.notices)[1] == rest.notices[1]);
    } else {
        assert(evs =~= seq![EventSpec::RoundOver] + death);
        lemma_over_then_death(s, q, death, targets);
    }
}

/// Helper: a round-over event followed by at most one death event, applied to
/// a recording round, drops both flags and leads with the round-over and
/// reset notices.
proof fn lemma_over_then_death(
    s: StateSpec,
    q: Seq<usize>,
    death: Seq<EventSpec>,
    targets: Seq<TargetSpec>,
)
    requires
        s.recording,
        s.in_round,
        death.len() <= 1,
        death.len() == 1 ==> death[0] is Death,
    ensures
        ({
            let o = apply_events(s, q, seq![EventSpec::RoundOver] + death, targets);
            &&& !o.state.recording
            &&& !o.state.in_round
            &&& o.notices.len() >= 2
            &&& o.notices[0] == NoticeSpec::RoundOver
            &&& o.notices[1] == NoticeSpec::ResetHit
        }),
{
    let evs = seq![EventSpec::RoundOver] + death;
    assert(evs[0] == EventSpec::RoundOver);
    let o0 = apply_event(s, q, evs[0], targets);
    assert(o0.notices =~= seq![NoticeSpec::RoundOver, NoticeSpec::ResetHit]);
    assert(evs.drop_first() =~= death);
    let rest = apply_events(o0.state, o0.queue, evs.drop_first(), targets);
    if death.len() == 0 {
        assert(rest.state == o0.state);
    } else {
        let o1 = apply_event(o0.state, o0.queue, death[0], targets);
        assert(o1.state.recording == o0.state.recording);
        assert(o1.state.in_round == o0.state.in_round);
        assert(death.drop_first() =~= Seq::<EventSpec>::empty());
        let rest2 = apply_events(o1.state, o1.queue, death.drop_first(), targets);
        assert(rest2.state == o1.state);
        assert(rest.state == rest2.state);
    }
    let o = apply_events(s, q, evs, targets);
    assert(o.notices =~= o0.notices + rest.notices);
    assert(o.notices[0] == NoticeSpec::RoundOver);
    assert(o.notices[1] == NoticeSpec::ResetHit);
}

/// One watch session. Exactly one is live at a time; the supervisor tears the
/// previous one down before the next starts.
pub struct WatchSession {
    pub state: RoundState,
    pub dispatcher: Dispatcher,
    pub targets: Vec<Target>,
}

impl WatchSession {
    /// A fresh session bound to an immutable target set.
    pub fn new(targets: Vec<Target>) -> (s: Self)
        ensures
            s.state@ == (StateSpec {
                recording: false,
                in_round: false,
                seen: Set::<Seq<u8>>::empty(),
            }),
            s.dispatcher@.queue == Seq::<usize>::empty(),
            s.dispatcher@.last_send is None,
            s.dispatcher@.sent == Seq::<usize>::empty(),
            targets_view(s.targets@) == targets_view(targets@),
    {
        WatchSession { state: RoundState::new(), dispatcher: Dispatcher::new(), targets }
    }

    /// Feed one raw line through classification, the state machine, and the
    /// queue, in order. Returns the notifications to deliver, in order; a
    /// reset notice also asks the transport to send the reset datagram.
    pub fn process_line(&mut self, line: &[u8]) -> (notices: Vec<Notice>)
        ensures
            ({
                let o = line_outcome(
                    old(self).state@,
                    old(self).dispatcher@.queue,
                    line@,
                    targets_view(old(self).targets@),
                );
                &&& final(self).state@ == o.state
                &&& final(self).dispatcher@.queue == o.queue
                &&& notices_view(notices@) == o.notices
                &&& final(self).dispatcher@.last_send == old(self).dispatcher@.last_send
                &&& final(self).dispatcher@.sent == old(self).dispatcher@.sent
                &&& final(self).targets@ == old(self).targets@
            }),
    {
        let ghost s0 = self.state@;
        let ghost q0 = self.dispatcher@.queue;
        let ghost tv = targets_view(self.targets@);
        let events = classify_line(line);
        let ghost evs = line_events(line@);
        let ghost goal = apply_events(s0, q0, evs, tv);
        let mut notices: Vec<Notice> = Vec::new();
        let n = events.len();
        let mut i: usize = 0;
        proof {
            assert(evs.skip(0) =~= evs);
            assert(notices_view(notices@) + apply_events(s0, q0, evs, tv).notices =~= goal.notices);
        }
        while i < n
            invariant
                n == events@.len(),
                0 <= i <= n,
                evs == events_view(events@),
                tv == targets_view(self.targets@),
                self.targets@ == old(self).targets@,
                self.dispatcher@.last_send == old(self).dispatcher@.last_send,
                self.dispatcher@.sent == old(self).dispatcher@.sent,
                ({
                    let rest = apply_events(self.state@, self.dispatcher@.queue, evs.skip(i as int), tv);
                    &&& rest.state == goal.state
                    &&& rest.queue == goal.queue
                    &&& notices_view(notices@) + rest.notices == goal.notices
                }),
            decreases n - i,
        {
            let ghost s_cur = self.state@;
            let ghost q_cur = self.dispatcher@.queue;
            proof {
                assert(evs.skip(i as int)[0] == evs[i as int]);
                assert(evs.skip(i as int).drop_first() =~= evs.skip(i + 1));
            }
            let (clear, enq, mut evnotices) = self.state.handle_event(&events[i], &self.targets);
            if clear {
                self.dispatcher.clear_osc_queue();
            }
            match enq {
                Some(num) => self.dispatcher.enqueue(num),
                None => {},
            }
            let ghost before = notices@;
            let ghost ev_ns = evnotices@;
            notices.append(&mut evnotices);
            proof {
                let o1 = apply_event(s_cur, q_cur, evs[i as int], tv);
                assert(self.state@ == o1.state);
                assert(self.dispatcher@.queue =~= o1.queue);
                assert(notices_view(notices@) =~= notices_view(before) + notices_view(ev_ns));
                let rest = apply_events(self.state@, self.dispatcher@.queue, evs.skip(i + 1), tv);
                assert(notices_view(notices@) + rest.notices =~= goal.notices);
            }
            i += 1;
        }
        proof {
            assert(evs.skip(n as int) =~= Seq::<EventSpec>::empty());
            assert(notices_view(notices@) + Seq::<NoticeSpec>::empty() =~= notices_view(notices@));
            assert(notices_view(notices@) =~= goal.notices);
        }
        notices
    }

    /// Switch recording on or off; the dispatch queue is untouched.
    pub fn toggle_recording(&mut self, enabled: bool)
        ensures
            final(self).state@ == toggle_spec(old(self).state@, enabled),
            final(self).dispatcher@ == old(self).dispatcher@,
            final(self).targets@ == old(self).targets@,
    {
        self.state.toggle_recording(enabled);
    }

    /// Manual reset: drop every pending payload and request one reset
    /// notification (which also sends the reset datagram).
    pub fn send_reset(&mut self) -> (notices: Vec<Notice>)
        ensures
            final(self).state@ == old(self).state@,
            final(self).dispatcher@.queue == Seq::<usize>::empty(),
            final(self).dispatcher@.last_send == old(self).dispatcher@.last_send,
            final(self).dispatcher@.sent == old(self).dispatcher@.sent,
            final(self).targets@ == old(self).targets@,
            notices_view(notices@) == seq![NoticeSpec::ResetHit],
    {
        self.dispatcher.clear_osc_queue();
        let mut notices: Vec<Notice> = Vec::new();
        notices.push(Notice::ResetHit);
        proof {
            assert(notices_view(notices@) =~= seq![NoticeSpec::ResetHit]);
        }
        notices
    }
}

} // verus!

//! Round state machine: recording and in-round flags plus the set of entity
//! names already seen, mutated only by classified events and the recording
//! toggle. Deciding side effects is pure; performing them is the caller's job.

use vstd::prelude::*;
use crate::bytes::bytes_eq;
use crate::classifier::EventSpec;
use crate::classifier::LogEvent;

verus! {

/// A caller-supplied mapping from an entity's textual identifier to a
/// numeric code. Immutable for the lifetime of a watch session.
pub struct Target {
    pub number: usize,
    pub value: Vec<u8>,
}

/// Mathematical image of a `Target`.
pub struct TargetSpec {
    pub number: usize,
    pub value: Seq<u8>,
}

impl View for Target {
    type V = TargetSpec;

    open spec fn view(&self) -> TargetSpec {
        TargetSpec { number: self.number, value: self.value@ }
    }
}

pub open spec fn targets_view(ts: Seq<Target>) -> Seq<TargetSpec> {
    ts.map_values(|t: Target| t@)
}

/// Numeric code of the first target whose value is `name`, if any.
pub open spec fn target_number(ts: Seq<TargetSpec>, name: Seq<u8>) -> Option<usize>
    decreases ts.len(),
{
    if ts.len() == 0 {
        None
    } else if ts[0].value == name {
        Some(ts[0].number)
    } else {
        target_number(ts.drop_first(), name)
    }
}

/// First matching target's code, computed exactly.
pub fn lookup_target(targets: &Vec<Target>, name: &[u8]) -> (r: Option<usize>)
    ensures
        r == target_number(targets_view(targets@), name@),
{
    let ghost tv = targets_view(targets@);
    proof {
        assert(tv.skip(0) =~= tv);
    }
    let n = targets.len();
    let mut i: usize = 0;
    while i < n
        invariant
            n == targets@.len(),
            tv == targets_view(targets@),
            0 <= i <= n,
            target_number(tv, name@) == target_number(tv.skip(i as int), name@),
        decreases n - i,
    {
        proof {
            assert(tv.skip(i as int)[0] == targets@[i as int]@);
        }
        if bytes_eq(targets[i].value.as_slice(), name) {
            return Some(targets[i].number);
        }
        proof {
            assert(tv.skip(i as int).drop_first() =~= tv.skip(i + 1));
        }
        i += 1;
    }
    proof {
        assert(tv.skip(n as int) =~= Seq::<TargetSpec>::empty());
    }
    None
}

/// An outbound notification requested by the state machine. `ResetHit` also
/// asks the transport to send the reset datagram.
pub enum Notice {
    LogHit(usize),
    ResetHit,
    RoundOver,
    NewPlayer(Vec<u8>),
}

/// Mathematical image of a `Notice`.
pub enum NoticeSpec {
    LogHit(usize),
    ResetHit,
    RoundOver,
    NewPlayer(Seq<u8>),
}

impl View for Notice {
    type V = NoticeSpec;

    open spec fn view(&self) -> NoticeSpec {
        match self {
            Notice::LogHit(n) => NoticeSpec::LogHit(*n),
            Notice::ResetHit => NoticeSpec::ResetHit,
            Notice::RoundOver => NoticeSpec::RoundOver,
            Notice::NewPlayer(name) => NoticeSpec::NewPlayer(name@),
        }
    }
}

pub open spec fn notices_view(ns: Seq<Notice>) -> Seq<NoticeSpec> {
    ns.map_values(|n: Notice| n@)
}

/// Round state: whether a recording session is on, whether a round is live,
/// and which names were already reported during the current round.
pub struct RoundState {
    pub recording: bool,
    pub in_round: bool,
    pub seen: Vec<Vec<u8>>,
}

/// Mathematical image of a `RoundState`.
pub struct StateSpec {
    pub recording: bool,
    pub in_round: bool,
    pub seen: Set<Seq<u8>>,
}

pub open spec fn seen_set(s: Seq<Vec<u8>>) -> Set<Seq<u8>> {
    Set::new(|n: Seq<u8>| exists|i: int| 0 <= i < s.len() && s[i]@ == n)
}

impl View for RoundState {
    type V = StateSpec;

    open spec fn view(&self) -> StateSpec {
        StateSpec {
            recording: self.recording,
            in_round: self.in_round,
            seen: seen_set(self.seen@),
        }
    }
}

impl StateSpec {
    /// A round can only be live while recording is on.
    pub open spec fn wf(self) -> bool {
        self.in_round ==> self.recording
    }
}

/// Result of one event: the next state, whether the dispatch queue must be
/// cleared, the code to enqueue (if any), and the notifications, in order.
pub struct StepSpec {
    pub state: StateSpec,
    pub clear_queue: bool,
    pub enqueue: Option<usize>,
    pub notices: Seq<NoticeSpec>,
}

/// The transition function of the round state machine.
pub open spec fn step(s: StateSpec, ev: EventSpec, targets: Seq<TargetSpec>) -> StepSpec {
    match ev {
        EventSpec::RoundStarted => {
            let state = if s.recording && !s.in_round {
                StateSpec { in_round: true, seen: Set::empty(), ..s }
            } else {
                s
            };
            StepSpec { state, clear_queue: false, enqueue: None, notices: Seq::empty() }
        },
        EventSpec::RoundOver => {
            if s.recording && s.in_round {
                StepSpec {
                    state: StateSpec { recording: false, in_round: false, ..s },
                    clear_queue: true,
                    enqueue: None,
                    notices: seq![NoticeSpec::RoundOver, NoticeSpec::ResetHit],
                }
            } else {
                StepSpec {
                    state: s,
                    clear_queue: true,
                    enqueue: None,
                    notices: seq![NoticeSpec::ResetHit],
                }
            }
        },
        EventSpec::Death(name) => {
            let code = target_number(targets, name);
            let newly = s.recording && s.in_round && !s.seen.contains(name) && code is None;
            let state = if newly {
                StateSpec { seen: s.seen.insert(name), ..s }
            } else {
                s
            };
            let discovery: Seq<NoticeSpec> = if newly {
                seq![NoticeSpec::NewPlayer(name)]
            } else {
                Seq::empty()
            };
            match code {
                Some(num) => StepSpec {
                    state,
                    clear_queue: false,
                    enqueue: Some(num),
                    notices: discovery + seq![NoticeSpec::LogHit(num)],
                },
                None => StepSpec { state, clear_queue: false, enqueue: None, notices: discovery },
            }
        },
    }
}

/// The recording toggle: switching on clears the seen names and leaves any
/// round; switching off only leaves the round.
pub open spec fn toggle_spec(s: StateSpec, enabled: bool) -> StateSpec {
    if enabled {
        StateSpec { recording: true, in_round: false, seen: Set::empty() }
    } else {
        StateSpec { recording: false, in_round: false, seen: s.seen }
    }
}

fn seen_contains(seen: &Vec<Vec<u8>>, name: &[u8]) -> (r: bool)
    ensures
        r == seen_set(seen@).contains(name@),
{
    let n = seen.len();
    let mut i: usize = 0;
    while i < n
        invariant
            n == seen@.len(),
            0 <= i <= n,
            forall|k: int| 0 <= k < i ==> seen@[k]@ != name@,
        decreases n - i,
    {
        if bytes_eq(seen[i].as_slice(), name) {
            proof {
                assert(seen_set(seen@).contains(name@));
            }
            return true;
        }
        i += 1;
    }
    false
}

impl RoundState {
    /// A fresh state: not recording, not in a round, nothing seen.
    pub fn new() -> (s: Self)
        ensures
            s@ == (StateSpec { recording: false, in_round: false, seen: Set::<Seq<u8>>::empty() }),
    {
        let s = RoundState { recording: false, in_round: false, seen: Vec::new() };
        proof {
            assert(seen_set(s.seen@) =~= Set::<Seq<u8>>::empty());
        }
        s
    }

    /// Switch recording on or off.
    pub fn toggle_recording(&mut self, enabled: bool)
        ensures
            final(self)@ == toggle_spec(old(self)@, enabled),
    {
        self.recording = enabled;
        self.in_round = false;
        if enabled {
            self.seen = Vec::new();
            proof {
                assert(seen_set(self.seen@) =~= Set::<Seq<u8>>::empty());
            }
        }
    }

    /// Consume one classified event; the result says which side effects the
    /// caller must perform, in order.
    pub fn handle_event(&mut self, ev: &LogEvent, targets: &Vec<Target>) -> (eff: (
        bool,
        Option<usize>,
        Vec<Notice>,
    ))
        ensures
            ({
                let st = step(old(self)@, ev@, targets_view(targets@));
                &&& final(self)@ == st.state
                &&& eff.0 == st.clear_queue
                &&& eff.1 == st.enqueue
                &&& notices_view(eff.2@) == st.notices
            }),
    {
        let ghost st = step(old(self)@, ev@, targets_view(targets@));
        let mut notices: Vec<Notice> = Vec::new();
        match ev {
            LogEvent::RoundStarted => {
                if self.recording && !self.in_round {
                    self.in_round = true;
                    self.seen = Vec::new();
                    proof {
                        assert(seen_set(self.seen@) =~= Set::<Seq<u8>>::empty());
                    }
                }
                proof {
                    assert(notices_view(notices@) =~= st.notices);
                }
                (false, None, notices)
            },
            LogEvent::RoundOver => {
                if self.recording && self.in_round {
                    self.in_round = false;
                    self.recording = false;
                    notices.push(Notice::RoundOver);
                }
                notices.push(Notice::ResetHit);
                proof {
                    assert(notices_view(notices@) =~= st.notices);
                }
                (true, None, notices)
            },
            LogEvent::Death(name) => {
                let code = lookup_target(targets, name.as_slice());
                if self.recording && self.in_round && code.is_none()
                    && !seen_contains(&self.seen, name.as_slice()) {
                    let copy = crate::bytes::subrange_to_vec(name.as_slice(), 0, name.len());
                    self.seen.push(copy);
                    notices.push(Notice::NewPlayer(crate::bytes::subrange_to_vec(
                        name.as_slice(),
                        0,
                        name.len(),
                    )));
                    proof {
                        assert(self.seen@.last()@ =~= name@);
                        assert forall|n: Seq<u8>|
                            seen_set(self.seen@).contains(n) implies seen_set(
                            old(self).seen@,
                        ).insert(name@).contains(n) by {
                            let i = choose|i: int|
                                0 <= i < self.seen@.len() && self.seen@[i]@ == n;
                            if i < old(self).seen@.len() {
                                assert(old(self).seen@[i]@ == n);
                            } else {
                                assert(self.seen@.last()@ == n);
                            }
                        }
                        assert forall|n: Seq<u8>|
                            seen_set(old(self).seen@).insert(name@).contains(
                                n,
                            ) implies seen_set(self.seen@).contains(n) by {
                            if n == name@ {
                                assert(self.seen@.last()@ == n);
                                assert(self.seen@[self.seen@.len() - 1]@ == n);
                            } else {
                                let i = choose|i: int|
                                    0 <= i < old(self).seen@.len() && old(self).seen@[i]@ == n;
                                assert(self.seen@[i]@ == n);
                            }
                        }
                        assert(seen_set(self.seen@) =~= seen_set(old(self).seen@).insert(name@));
                    }
                }
                match code {
                    Some(num) => {
                        notices.push(Notice::LogHit(num));
                        proof {
                            assert(notices_view(notices@) =~= st.notices);
                        }
                        (false, Some(num), notices)
                    },
                    None => {
                        proof {
                            assert(notices_view(notices@) =~= st.notices);
                        }
                        (false, None, notices)
                    },
                }
            },
        }
    }
}

/// Stepping any well-formed state keeps it well-formed: a live round still
/// implies recording.
pub proof fn lemma_step_preserves_wf(s: StateSpec, ev: EventSpec, targets: Seq<TargetSpec>)
    requires
        s.wf(),
    ensures
        step(s, ev, targets).state.wf(),
{
}

/// The recording toggle always yields a well-formed state.
pub proof fn lemma_toggle_wf(s: StateSpec, enabled: bool)
    ensures
        toggle_spec(s, enabled).wf(),
{
}

/// A round-over event during a recording round performs all four effects in
/// one step: the queue is cleared, a round-over and a reset notice go out,
/// and both flags drop — never a partial combination.
pub proof fn lemma_round_over_atomic(s: StateSpec, targets: Seq<TargetSpec>)
    requires
        s.recording,
        s.in_round,
    ensures
        ({
            let st = step(s, EventSpec::RoundOver, targets);
            &&& st.clear_queue
            &&& !st.state.recording
            &&& !st.state.in_round
            &&& st.notices == seq![NoticeSpec::RoundOver, NoticeSpec::ResetHit]
        }),
{
}

/// Right after recording is switched on, a death event can never report a
/// newly discovered entity: no round has started yet.
pub proof fn lemma_no_discovery_before_round_start(
    s: StateSpec,
    name: Seq<u8>,
    targets: Seq<TargetSpec>,
)
    ensures
        ({
            let st = step(toggle_spec(s, true), EventSpec::Death(name), targets);
            forall|i: int| 0 <= i < st.notices.len() ==> !(st.notices[i] is NewPlayer)
        }),
{
}

/// A death of a target during a recording round yields exactly one match
/// notification carrying the target's code, and no discovery notification.
pub proof fn lemma_death_of_target(
    s: StateSpec,
    name: Seq<u8>,
    num: usize,
    targets: Seq<TargetSpec>,
)
    requires
        s.recording,
        s.in_round,
        target_number(targets, name) == Some(num),
    ensures
        ({
            let st = step(s, EventSpec::Death(name), targets);
            &&& st.notices == seq![NoticeSpec::LogHit(num)]
            &&& st.enqueue == Some(num)
            &&& st.state == s
        }),
{
    let st = step(s, EventSpec::Death(name), targets);
    assert(st.notices =~= seq![NoticeSpec::LogHit(num)]);
}

/// A death of an unseen non-target during a recording round yields exactly
/// one discovery notification carrying the name, and no match notification.
pub proof fn lemma_death_of_new_player(s: StateSpec, name: Seq<u8>, targets: Seq<TargetSpec>)
    requires
        s.recording,
        s.in_round,
        !s.seen.contains(name),
        target_number(targets, name) is None,
    ensures
        ({
            let st = step(s, EventSpec::Death(name), targets);
            &&& st.notices == seq![NoticeSpec::NewPlayer(name)]
            &&& st.enqueue is None
            &&& st.state.seen == s.seen.insert(name)
        }),
{
}

} // verus!

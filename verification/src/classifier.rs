//! Pure line classification: maps one raw log line to the ordered events
//! found in it. Three substring markers matter; everything else is noise.

use vstd::prelude::*;
use crate::bytes::{
    contains_seq, find_at_or_after, match_at, lemma_find_first, contains_bytes, find_in,
    subrange_to_vec,
};

verus! {

/// Marker announcing a round start: `"and the round type is"`.
pub open spec fn round_start_marker() -> Seq<u8> {
    seq![
        97u8, 110u8, 100u8, 32u8, 116u8, 104u8, 101u8, 32u8, 114u8, 111u8, 117u8, 110u8, 100u8, 32u8,
        116u8, 121u8, 112u8, 101u8, 32u8, 105u8, 115u8,
    ]
}

/// Marker announcing a round end: `"RoundOver"`.
pub open spec fn round_over_marker() -> Seq<u8> {
    seq![82u8, 111u8, 117u8, 110u8, 100u8, 79u8, 118u8, 101u8, 114u8]
}

/// Marker introducing a death record: `"[DEATH]["`.
pub open spec fn death_marker() -> Seq<u8> {
    seq![91u8, 68u8, 69u8, 65u8, 84u8, 72u8, 93u8, 91u8]
}

pub fn round_start_marker_bytes() -> (r: Vec<u8>)
    ensures
        r@ == round_start_marker(),
{
    let v: Vec<u8> = vec![
        97u8, 110u8, 100u8, 32u8, 116u8, 104u8, 101u8, 32u8, 114u8, 111u8, 117u8, 110u8, 100u8, 32u8,
        116u8, 121u8, 112u8, 101u8, 32u8, 105u8, 115u8,
    ];
    proof {
        assert(v@ =~= round_start_marker());
    }
    v
}

pub fn round_over_marker_bytes() -> (r: Vec<u8>)
    ensures
        r@ == round_over_marker(),
{
    let v: Vec<u8> = vec![82u8, 111u8, 117u8, 110u8, 100u8, 79u8, 118u8, 101u8, 114u8];
    proof {
        assert(v@ =~= round_over_marker());
    }
    v
}

pub fn death_marker_bytes() -> (r: Vec<u8>)
    ensures
        r@ == death_marker(),
{
    let v: Vec<u8> = vec![91u8, 68u8, 69u8, 65u8, 84u8, 72u8, 93u8, 91u8];
    proof {
        assert(v@ =~= death_marker());
    }
    v
}

/// A semantic event found in one log line.
pub enum LogEvent {
    RoundStarted,
    RoundOver,
    Death(Vec<u8>),
}

/// Mathematical image of a `LogEvent`.
pub enum EventSpec {
    RoundStarted,
    RoundOver,
    Death(Seq<u8>),
}

impl View for LogEvent {
    type V = EventSpec;

    open spec fn view(&self) -> EventSpec {
        match self {
            LogEvent::RoundStarted => EventSpec::RoundStarted,
            LogEvent::RoundOver => EventSpec::RoundOver,
            LogEvent::Death(name) => EventSpec::Death(name@),
        }
    }
}

pub open spec fn events_view(es: Seq<LogEvent>) -> Seq<EventSpec> {
    es.map_values(|e: LogEvent| e@)
}

/// The name carried by the first death record of the line, if that record is
/// complete: the bytes between the first `"[DEATH]["` and the next `']'`.
pub open spec fn death_name(line: Seq<u8>) -> Option<Seq<u8>> {
    match find_at_or_after(line, death_marker(), 0) {
        None => None,
        Some(i) => match find_at_or_after(line, seq![93u8], i + death_marker().len()) {
            None => None,
            Some(j) => Some(line.subrange(i + death_marker().len(), j)),
        },
    }
}

/// All events of one line, in detection order: a round start, then a round
/// end, then the first complete death record.
pub open spec fn line_events(line: Seq<u8>) -> Seq<EventSpec> {
    let started: Seq<EventSpec> = if contains_seq(line, round_start_marker()) {
        seq![EventSpec::RoundStarted]
    } else {
        Seq::empty()
    };
    let over: Seq<EventSpec> = if contains_seq(line, round_over_marker()) {
        seq![EventSpec::RoundOver]
    } else {
        Seq::empty()
    };
    let death: Seq<EventSpec> = match death_name(line) {
        Some(n) => seq![EventSpec::Death(n)],
        None => Seq::empty(),
    };
    started + over + death
}

/// Classify one raw line. Pure: no I/O, no shared state.
pub fn classify_line(line: &[u8]) -> (events: Vec<LogEvent>)
    ensures
        events_view(events@) == line_events(line@),
{
    let mut events: Vec<LogEvent> = Vec::new();

    let started = round_start_marker_bytes();
    if contains_bytes(line, started.as_slice()) {
        events.push(LogEvent::RoundStarted);
    }

    let over = round_over_marker_bytes();
    if contains_bytes(line, over.as_slice()) {
        events.push(LogEvent::RoundOver);
    }

    let marker = death_marker_bytes();
    match find_in(line, marker.as_slice(), 0) {
        None => {},
        Some(i) => {
            let line_len = line.len();
            proof {
                lemma_find_first(line@, death_marker(), 0);
                assert(match_at(line@, death_marker(), i as int));
                assert(i + death_marker().len() <= line_len);
            }
            let start = i + marker.len();
            let close: Vec<u8> = vec![93u8];
            proof {
                assert(close@ =~= seq![93u8]);
            }
            match find_in(line, close.as_slice(), start) {
                None => {},
                Some(j) => {
                    proof {
                        lemma_find_first(line@, seq![93u8], start as int);
                    }
                    let name = subrange_to_vec(line, start, j);
                    events.push(LogEvent::Death(name));
                },
            }
        },
    }

    proof {
        assert(events_view(events@) =~= line_events(line@));
    }
    events
}

/// Every line that holds the round-over marker is classified with a
/// round-over event, whatever else the line holds.
pub proof fn lemma_round_over_always_classified(line: Seq<u8>)
    requires
        contains_seq(line, round_over_marker()),
    ensures
        line_events(line).contains(EventSpec::RoundOver),
{
    let evs = line_events(line);
    if contains_seq(line, round_start_marker()) {
        assert(evs[1] == EventSpec::RoundOver);
    } else {
        assert(evs[0] == EventSpec::RoundOver);
    }
}

} // verus!

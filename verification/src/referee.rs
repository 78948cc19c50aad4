//! The referee: it takes the reports one at a time, keeps the ledger, and
//! answers for it.

use crate::ledger::{
    first_record, has_slot, lemma_report_keeps_wf, lemma_slot_position, slot_position,
    time_behind, with_finish, with_stream, RaceState, Report, SlotRecord,
};
use std::collections::VecDeque;
use vstd::hash_map::StringHashMap;
use vstd::prelude::*;

verus! {

/// One slot's race as the referee keeps it.
pub struct SlotResult {
    pub slot: u64,
    pub winner: String,
    pub winner_timestamp: u128,
    /// Every stream's finish, the winner's too.
    pub finish_times: StringHashMap<u128>,
}

impl View for SlotResult {
    type V = SlotRecord;

    open spec fn view(&self) -> SlotRecord {
        SlotRecord {
            slot: self.slot,
            winner: self.winner@,
            winner_timestamp: self.winner_timestamp,
            finishes: self.finish_times@,
        }
    }
}

impl SlotResult {
    /// When `stream` finished this slot, if it has.
    pub fn finish_time(&self, stream: &str) -> (t: Option<u128>)
        ensures
            t == if self@.finishes.contains_key(stream@) {
                Some(self@.finishes[stream@])
            } else {
                None
            },
    {
        match self.finish_times.get(stream) {
            Some(t) => Some(*t),
            None => None,
        }
    }

    /// How many streams have finished this slot.
    pub fn finish_count(&self) -> (n: usize)
        ensures
            n == self@.finishes.len(),
    {
        self.finish_times.len()
    }
}

/// What travels from the streams to the referee.
#[derive(Debug)]
pub enum RaceEvent {
    SlotReport { slot: u64, stream_id: String, timestamp: u128 },
}

impl RaceEvent {
    /// The report that the event carries.
    pub open spec fn report(self) -> Report {
        match self {
            RaceEvent::SlotReport { slot, stream_id, timestamp } => Report {
                slot,
                stream: stream_id@,
                timestamp,
            },
        }
    }
}

/// What a report did, for the log.
#[derive(Clone, Copy, Debug, PartialEq, Eq, Structural)]
pub enum ReportOutcome {
    /// The ledger is complete and the slot is not on record: nothing changed.
    Rejected,
    /// The slot was new and the stream has won it. `streams` is the number of
    /// streams heard so far.
    FirstSighting { streams: usize },
    /// The slot was on record and the stream's finish was set. `position` is
    /// one more than the number of finishes on record before (at most the
    /// largest `usize`); the race is complete when every stream heard so far
    /// has finished the slot.
    LaterFinish { position: usize, streams: usize, time_behind_ns: u128, race_complete: bool },
}

/// One more than `n`, and the largest `usize` where that does not fit.
pub open spec fn next_position(n: nat) -> usize {
    if n + 1 <= usize::MAX {
        (n + 1) as usize
    } else {
        usize::MAX
    }
}

/// What a report does to a state, for the log.
pub open spec fn outcome_of(st: RaceState, r: Report) -> ReportOutcome {
    if !st.admits(r.slot) {
        ReportOutcome::Rejected
    } else {
        let streams = with_stream(st.streams, r.stream).len() as usize;
        if has_slot(st.ledger, r.slot) {
            let rec = st.ledger[slot_position(st.ledger, r.slot)];
            ReportOutcome::LaterFinish {
                position: next_position(rec.finishes.len()),
                streams,
                time_behind_ns: time_behind(r.timestamp, rec.winner_timestamp),
                race_complete: with_finish(rec, r.stream, r.timestamp).finishes.len() == streams,
            }
        } else {
            ReportOutcome::FirstSighting { streams }
        }
    }
}

/// The records as the ledger's mathematical state holds them, in their
/// order.
pub open spec fn records_of(results: Seq<SlotResult>) -> Seq<SlotRecord> {
    results.map_values(|r: SlotResult| r@)
}

/// The names as sequences of characters, in their order.
pub open spec fn names_of(names: Seq<String>) -> Seq<Seq<char>> {
    names.map_values(|s: String| s@)
}

/// The referee of the races between the streams.
pub struct Referee {
    max_slots: usize,
    stop_at_max: bool,
    results: VecDeque<SlotResult>,
    stream_names: Vec<String>,
}

impl View for Referee {
    type V = RaceState;

    closed spec fn view(&self) -> RaceState {
        RaceState {
            max_slots: self.max_slots as nat,
            stop_at_max: self.stop_at_max,
            ledger: records_of(self.results@),
            streams: names_of(self.stream_names@),
        }
    }
}

impl Referee {
    /// The referee's state is one that reports lead to.
    pub open spec fn wf(&self) -> bool {
        self@.wf()
    }

    /// A referee with an empty ledger.
    pub fn new(max_slots: usize, stop_at_max: bool) -> (referee: Referee)
        ensures
            referee.wf(),
            referee@ == RaceState::empty(max_slots as nat, stop_at_max),
    {
        let referee = Referee {
            max_slots,
            stop_at_max,
            results: VecDeque::new(),
            stream_names: Vec::new(),
        };
        assert(referee@.ledger =~= Seq::empty());
        assert(referee@.streams =~= Seq::empty());
        referee
    }

    /// The limit of the ledger's length.
    pub fn max_slots(&self) -> (n: usize)
        ensures
            n == self@.max_slots,
    {
        self.max_slots
    }

    /// Whether the ledger stops admitting slots at its limit.
    pub fn stop_at_max(&self) -> (b: bool)
        ensures
            b == self@.stop_at_max,
    {
        self.stop_at_max
    }

    /// The ledger, oldest record first.
    pub fn results(&self) -> (r: &VecDeque<SlotResult>)
        ensures
            records_of(r@) == self@.ledger,
    {
        &self.results
    }

    /// The streams heard so far, in the order in which they were first heard.
    pub fn stream_names(&self) -> (names: &Vec<String>)
        ensures
            names_of(names@) == self@.streams,
    {
        &self.stream_names
    }

    /// Whether the ledger is full and admits no further slot.
    pub fn is_complete(&self) -> (done: bool)
        ensures
            done == self@.complete(),
    {
        self.stop_at_max && self.results.len() >= self.max_slots
    }

    /// The place of the record of `slot` in the ledger, if there is one.
    fn find_slot(&self, slot: u64) -> (found: Option<usize>)
        requires
            self.wf(),
        ensures
            match found {
                Some(i) => has_slot(self@.ledger, slot) && i == slot_position(self@.ledger, slot)
                    && i < self.results@.len(),
                None => !has_slot(self@.ledger, slot),
            },
    {
        let mut i: usize = 0;
        while i < self.results.len()
            invariant
                self.wf(),
                i <= self.results@.len(),
                forall|k: int| 0 <= k < i ==> (#[trigger] self@.ledger[k]).slot != slot,
            decreases self.results@.len() - i,
        {
            if self.results[i].slot == slot {
                proof {
                    assert(self@.ledger[i as int].slot == slot);
                    lemma_slot_position(self@.ledger, i as int);
                }
                return Some(i);
            }
            i = i + 1;
        }
        None
    }

    /// The winner of `slot`, if the ledger holds a record of it.
    pub fn winner_of(&self, slot: u64) -> (winner: Option<&String>)
        requires
            self.wf(),
        ensures
            match winner {
                Some(name) => has_slot(self@.ledger, slot) && name@ == self@.ledger[slot_position(
                    self@.ledger,
                    slot,
                )].winner,
                None => !has_slot(self@.ledger, slot),
            },
    {
        match self.find_slot(slot) {
            Some(i) => {
                assert(self@.ledger[i as int] == self.results@[i as int]@);
                Some(&self.results[i].winner)
            },
            None => None,
        }
    }

    /// Makes sure that `stream_id` is among the streams heard.
    fn note_stream(&mut self, stream_id: &String)
        ensures
            final(self)@ == (RaceState {
                streams: with_stream(old(self)@.streams, stream_id@),
                ..old(self)@
            }),
            final(self).results == old(self).results,
    {
        let mut i: usize = 0;
        while i < self.stream_names.len()
            invariant
                i <= self.stream_names@.len(),
                *self == *old(self),
                forall|k: int| 0 <= k < i ==> (#[trigger] self@.streams[k]) != stream_id@,
            decreases self.stream_names@.len() - i,
        {
            if self.stream_names[i] == *stream_id {
                proof {
                    assert(self@.streams[i as int] == stream_id@);
                    assert(self@.streams.contains(stream_id@));
                }
                return ;
            }
            i = i + 1;
        }
        self.stream_names.push(stream_id.clone());
        proof {
            assert(!old(self)@.streams.contains(stream_id@));
            assert(self@.streams =~= old(self)@.streams.push(stream_id@));
        }
    }

    /// Takes one report and says what it did. The state changes as
    /// `RaceState::report` says.
    pub fn record_report(&mut self, slot: u64, stream_id: String, timestamp: u128) -> (outcome:
        ReportOutcome)
        requires
            old(self).wf(),
        ensures
            final(self).wf(),
            final(self)@ == old(self)@.report(Report { slot, stream: stream_id@, timestamp }),
            outcome == outcome_of(old(self)@, Report { slot, stream: stream_id@, timestamp }),
    {
        let ghost r = Report { slot, stream: stream_id@, timestamp };
        proof {
            lemma_report_keeps_wf(self@, r);
        }
        let found = self.find_slot(slot);
        if self.stop_at_max && self.results.len() >= self.max_slots && found.is_none() {
            return ReportOutcome::Rejected;
        }
        self.note_stream(&stream_id);
        let streams = self.stream_names.len();
        match found {
            Some(i) => {
                let ghost before = self.results@;
                let mut existing = self.results.remove(i).unwrap();
                let position = existing.finish_times.len().saturating_add(1);
                let time_behind_ns = timestamp.saturating_sub(existing.winner_timestamp);
                existing.finish_times.insert(stream_id, timestamp);
                let race_complete = existing.finish_times.len() == streams;
                self.results.insert(i, existing);
                proof {
                    assert(existing@ == with_finish(before[i as int]@, r.stream, timestamp));
                    assert(self.results@ =~= before.update(i as int, existing));
                    assert(self@.ledger =~= old(self)@.ledger.update(
                        i as int,
                        with_finish(old(self)@.ledger[i as int], r.stream, timestamp),
                    ));
                }
                ReportOutcome::LaterFinish { position, streams, time_behind_ns, race_complete }
            },
            None => {
                let mut finish_times = StringHashMap::new();
                finish_times.insert(stream_id.clone(), timestamp);
                let result = SlotResult {
                    slot,
                    winner: stream_id,
                    winner_timestamp: timestamp,
                    finish_times,
                };
                let ghost before = self.results@;
                self.results.push_back(result);
                proof {
                    assert(result@ == first_record(r));
                    assert(self@.ledger =~= old(self)@.ledger.push(first_record(r)));
                }
                if !self.stop_at_max && self.results.len() > self.max_slots {
                    let ghost grown = self@.ledger;
                    self.results.pop_front();
                    proof {
                        assert(self@.ledger =~= grown.drop_first());
                    }
                }
                ReportOutcome::FirstSighting { streams }
            },
        }
    }

    /// Takes one report. The answer is whether it was admitted: `false` only
    /// where the ledger is complete and has no record of the slot, in which
    /// case nothing changes.
    pub fn process_slot_report(&mut self, slot: u64, stream_id: String, timestamp: u128) -> (proceed:
        bool)
        requires
            old(self).wf(),
        ensures
            final(self).wf(),
            final(self)@ == old(self)@.report(Report { slot, stream: stream_id@, timestamp }),
            proceed == old(self)@.admits(slot),
    {
        match self.record_report(slot, stream_id, timestamp) {
            ReportOutcome::Rejected => false,
            _ => true,
        }
    }

    /// Takes one event from the streams, as `process_slot_report` does.
    pub fn process_event(&mut self, event: RaceEvent) -> (proceed: bool)
        requires
            old(self).wf(),
        ensures
            final(self).wf(),
            final(self)@ == old(self)@.report(event.report()),
            proceed == old(self)@.admits(event.report().slot),
    {
        match event {
            RaceEvent::SlotReport { slot, stream_id, timestamp } => self.process_slot_report(
                slot,
                stream_id,
                timestamp,
            ),
        }
    }
}

} // verus!

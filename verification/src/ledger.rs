//! The race ledger as a mathematical state, and how one report changes it.

use vstd::prelude::*;

verus! {

/// One slot's race: who was seen first, when, and when each stream finished.
pub struct SlotRecord {
    pub slot: u64,
    pub winner: Seq<char>,
    pub winner_timestamp: u128,
    pub finishes: Map<Seq<char>, u128>,
}

/// What one stream says of one slot: that it saw the slot at `timestamp`.
pub struct Report {
    pub slot: u64,
    pub stream: Seq<char>,
    pub timestamp: u128,
}

/// The referee's state: its limits, the ledger in order of first sighting,
/// and the streams in the order in which they were first heard.
pub struct RaceState {
    pub max_slots: nat,
    pub stop_at_max: bool,
    pub ledger: Seq<SlotRecord>,
    pub streams: Seq<Seq<char>>,
}

/// Whether the ledger holds a record of `slot`.
pub open spec fn has_slot(ledger: Seq<SlotRecord>, slot: u64) -> bool {
    exists|i: int| 0 <= i < ledger.len() && (#[trigger] ledger[i]).slot == slot
}

/// The place of the record of `slot`, where the ledger holds one.
pub open spec fn slot_position(ledger: Seq<SlotRecord>, slot: u64) -> int {
    choose|i: int| 0 <= i < ledger.len() && (#[trigger] ledger[i]).slot == slot
}

/// No two records of the ledger are of the same slot.
pub open spec fn slots_unique(ledger: Seq<SlotRecord>) -> bool {
    forall|i: int, j: int|
        0 <= i < j < ledger.len() ==> (#[trigger] ledger[i]).slot != (#[trigger] ledger[j]).slot
}

/// The record that the first report of a slot creates.
pub open spec fn first_record(r: Report) -> SlotRecord {
    SlotRecord {
        slot: r.slot,
        winner: r.stream,
        winner_timestamp: r.timestamp,
        finishes: Map::<Seq<char>, u128>::empty().insert(r.stream, r.timestamp),
    }
}

/// The record after a further finish: the stream's time is set, and nothing
/// else changes.
pub open spec fn with_finish(rec: SlotRecord, stream: Seq<char>, timestamp: u128) -> SlotRecord {
    SlotRecord { finishes: rec.finishes.insert(stream, timestamp), ..rec }
}

/// The streams with `stream` among them: added at the end if it is new.
pub open spec fn with_stream(streams: Seq<Seq<char>>, stream: Seq<char>) -> Seq<Seq<char>> {
    if streams.contains(stream) {
        streams
    } else {
        streams.push(stream)
    }
}

/// By how much a finish came after the winner's, and zero if it did not.
pub open spec fn time_behind(finish: u128, winner_timestamp: u128) -> u128 {
    if finish >= winner_timestamp {
        (finish - winner_timestamp) as u128
    } else {
        0
    }
}

impl RaceState {
    /// The state before any report.
    pub open spec fn empty(max_slots: nat, stop_at_max: bool) -> RaceState {
        RaceState { max_slots, stop_at_max, ledger: Seq::empty(), streams: Seq::empty() }
    }

    /// The ledger is full and admits no further slot.
    pub open spec fn complete(self) -> bool {
        self.stop_at_max && self.ledger.len() >= self.max_slots
    }

    /// Whether a report of `slot` is taken: always, unless the ledger is
    /// complete and has no record of the slot.
    pub open spec fn admits(self, slot: u64) -> bool {
        !self.complete() || has_slot(self.ledger, slot)
    }

    /// What holds of every state that reports lead to.
    pub open spec fn wf(self) -> bool {
        &&& slots_unique(self.ledger)
        &&& self.ledger.len() <= self.max_slots
        &&& self.streams.no_duplicates()
        &&& forall|i: int|
            0 <= i < self.ledger.len() ==> {
                &&& (#[trigger] self.ledger[i]).finishes.dom().contains(self.ledger[i].winner)
                &&& self.ledger[i].finishes.dom().finite()
                &&& forall|s: Seq<char>|
                    self.ledger[i].finishes.dom().contains(s) ==> self.streams.contains(s)
            }
    }

    /// The state after a report. A report that is not admitted changes
    /// nothing. One of a slot on record sets the stream's finish in that
    /// record. One of a new slot adds a record at the end, won by the stream;
    /// if that makes the ledger longer than `max_slots`, which it can only
    /// where the ledger does not stop at its limit, the oldest record leaves.
    pub open spec fn report(self, r: Report) -> RaceState {
        if !self.admits(r.slot) {
            self
        } else {
            let streams = with_stream(self.streams, r.stream);
            if has_slot(self.ledger, r.slot) {
                let i = slot_position(self.ledger, r.slot);
                RaceState {
                    streams,
                    ledger: self.ledger.update(
                        i,
                        with_finish(self.ledger[i], r.stream, r.timestamp),
                    ),
                    ..self
                }
            } else {
                let grown = self.ledger.push(first_record(r));
                RaceState {
                    streams,
                    ledger: if !self.stop_at_max && grown.len() > self.max_slots {
                        grown.drop_first()
                    } else {
                        grown
                    },
                    ..self
                }
            }
        }
    }

    /// The state after the reports, taken one after the other.
    pub open spec fn replay(self, reports: Seq<Report>) -> RaceState
        decreases reports.len(),
    {
        if reports.len() == 0 {
            self
        } else {
            self.replay(reports.drop_last()).report(reports.last())
        }
    }
}

/// With unique slots, the record of a slot is found at the one place where
/// it stands.
pub proof fn lemma_slot_position(ledger: Seq<SlotRecord>, i: int)
    requires
        slots_unique(ledger),
        0 <= i < ledger.len(),
    ensures
        has_slot(ledger, ledger[i].slot),
        slot_position(ledger, ledger[i].slot) == i,
{
    let slot = ledger[i].slot;
    let j = slot_position(ledger, slot);
    assert(0 <= j < ledger.len() && ledger[j].slot == slot);
    if j != i {
        if j < i {
            assert(ledger[j].slot != ledger[i].slot);
        } else {
            assert(ledger[i].slot != ledger[j].slot);
        }
    }
}

/// A report keeps a well-formed state well-formed: in particular, no slot
/// gets a second record, and the ledger never grows beyond `max_slots`.
pub proof fn lemma_report_keeps_wf(st: RaceState, r: Report)
    requires
        st.wf(),
    ensures
        st.report(r).wf(),
        st.report(r).ledger.len() <= st.max_slots,
        st.report(r).max_slots == st.max_slots,
        st.report(r).stop_at_max == st.stop_at_max,
{
    let next = st.report(r);
    if st.admits(r.slot) {
        let streams = with_stream(st.streams, r.stream);
        assert(streams.no_duplicates());
        assert(streams.contains(r.stream)) by {
            if !st.streams.contains(r.stream) {
                assert(streams[st.streams.len() as int] == r.stream);
            }
        }
        assert forall|s: Seq<char>| st.streams.contains(s) implies streams.contains(s) by {
            if !st.streams.contains(r.stream) {
                let k = choose|k: int| 0 <= k < st.streams.len() && st.streams[k] == s;
                assert(streams[k] == s);
            }
        }
        if has_slot(st.ledger, r.slot) {
            let i = slot_position(st.ledger, r.slot);
            assert forall|k: int| 0 <= k < next.ledger.len() implies {
                &&& (#[trigger] next.ledger[k]).finishes.dom().contains(next.ledger[k].winner)
                &&& next.ledger[k].finishes.dom().finite()
                &&& forall|s: Seq<char>|
                    next.ledger[k].finishes.dom().contains(s) ==> next.streams.contains(s)
            } by {
                assert(st.ledger[k].finishes.dom().contains(st.ledger[k].winner));
            }
            assert forall|a: int, b: int| 0 <= a < b < next.ledger.len() implies (
            #[trigger] next.ledger[a]).slot != (#[trigger] next.ledger[b]).slot by {
                assert(st.ledger[a].slot != st.ledger[b].slot);
            }
        } else {
            let grown = st.ledger.push(first_record(r));
            assert forall|a: int, b: int| 0 <= a < b < grown.len() implies (#[trigger] grown[a]).slot
                != (#[trigger] grown[b]).slot by {
                if b < st.ledger.len() {
                    assert(st.ledger[a].slot != st.ledger[b].slot);
                } else {
                    assert(st.ledger[a].slot != r.slot);
                }
            }
            assert forall|k: int| 0 <= k < grown.len() implies {
                &&& (#[trigger] grown[k]).finishes.dom().contains(grown[k].winner)
                &&& grown[k].finishes.dom().finite()
                &&& forall|s: Seq<char>| grown[k].finishes.dom().contains(s) ==> streams.contains(s)
            } by {
                if k < st.ledger.len() {
                    assert(st.ledger[k].finishes.dom().contains(st.ledger[k].winner));
                }
            }
            if !st.stop_at_max && grown.len() > st.max_slots {
                assert forall|a: int, b: int| 0 <= a < b < next.ledger.len() implies (
                #[trigger] next.ledger[a]).slot != (#[trigger] next.ledger[b]).slot by {
                    assert(grown[a + 1].slot != grown[b + 1].slot);
                }
                assert forall|k: int| 0 <= k < next.ledger.len() implies {
                    &&& (#[trigger] next.ledger[k]).finishes.dom().contains(next.ledger[k].winner)
                    &&& next.ledger[k].finishes.dom().finite()
                    &&& forall|s: Seq<char>|
                        next.ledger[k].finishes.dom().contains(s) ==> next.streams.contains(s)
                } by {
                    assert(grown[k + 1].finishes.dom().contains(grown[k + 1].winner));
                }
            }
        }
    }
}

} // verus!

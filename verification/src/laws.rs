//! What holds of the ledger over whole runs of reports.

use crate::ledger::{
    first_record, has_slot, lemma_report_keeps_wf, lemma_slot_position, slot_position,
    slots_unique, RaceState, Report, SlotRecord,
};
use vstd::prelude::*;

verus! {

/// Whether one of the reports is of `slot`.
pub open spec fn sighted(reports: Seq<Report>, slot: u64) -> bool {
    exists|j: int| 0 <= j < reports.len() && (#[trigger] reports[j]).slot == slot
}

/// Whether the report at place `k` is the first of the reports that is of
/// `slot`.
pub open spec fn is_first_sighting(reports: Seq<Report>, k: int, slot: u64) -> bool {
    &&& 0 <= k < reports.len()
    &&& reports[k].slot == slot
    &&& forall|j: int| 0 <= j < k ==> (#[trigger] reports[j]).slot != slot
}

/// Whether the record was made by the first of the reports that is of its
/// slot: it has that report's stream as winner, and its timestamp.
pub open spec fn won_by_first_sighting(reports: Seq<Report>, rec: SlotRecord) -> bool {
    exists|k: int|
        #![trigger reports[k]]
        is_first_sighting(reports, k, rec.slot) && rec.winner == reports[k].stream
            && rec.winner_timestamp == reports[k].timestamp
}

/// Whether no report is of a slot that was reported before and whose record
/// the ledger, started from `start`, has since let go.
pub open spec fn never_resights_dropped(start: RaceState, reports: Seq<Report>) -> bool {
    forall|k: int|
        0 <= k < reports.len() ==> has_slot(
            start.replay(reports.take(k)).ledger,
            (#[trigger] reports[k]).slot,
        ) || !sighted(reports.take(k), reports[k].slot)
}

/// Every run of reports keeps a well-formed state well-formed, and so the
/// ledger never exceeds `max_slots`, whether it stops at its limit or lets
/// its oldest record go.
pub proof fn lemma_replay_keeps_wf(start: RaceState, reports: Seq<Report>)
    requires
        start.wf(),
    ensures
        start.replay(reports).wf(),
        start.replay(reports).ledger.len() <= start.max_slots,
        start.replay(reports).max_slots == start.max_slots,
        start.replay(reports).stop_at_max == start.stop_at_max,
    decreases reports.len(),
{
    if reports.len() > 0 {
        lemma_replay_keeps_wf(start, reports.drop_last());
        lemma_report_keeps_wf(start.replay(reports.drop_last()), reports.last());
    }
}

/// Started empty, the ledger never exceeds `max_slots`, and no slot has two
/// records in it.
pub proof fn lemma_ledger_bounded(max_slots: nat, stop_at_max: bool, reports: Seq<Report>)
    ensures
        RaceState::empty(max_slots, stop_at_max).replay(reports).ledger.len() <= max_slots,
        slots_unique(RaceState::empty(max_slots, stop_at_max).replay(reports).ledger),
{
    lemma_replay_keeps_wf(RaceState::empty(max_slots, stop_at_max), reports);
}

/// A complete ledger takes no new slot and loses none: after a report it is
/// still complete and holds the same slots with the same winners, in the
/// same order. A report of a slot on record is admitted and sets the
/// stream's finish in that record; any other changes nothing.
pub proof fn lemma_complete_admits_no_new_slot(st: RaceState, r: Report)
    requires
        st.wf(),
        st.complete(),
    ensures
        st.report(r).complete(),
        st.report(r).ledger.len() == st.ledger.len(),
        forall|i: int|
            0 <= i < st.ledger.len() ==> {
                &&& (#[trigger] st.report(r).ledger[i]).slot == st.ledger[i].slot
                &&& st.report(r).ledger[i].winner == st.ledger[i].winner
                &&& st.report(r).ledger[i].winner_timestamp == st.ledger[i].winner_timestamp
                &&& st.report(r).ledger[i].finishes == if st.ledger[i].slot == r.slot {
                    st.ledger[i].finishes.insert(r.stream, r.timestamp)
                } else {
                    st.ledger[i].finishes
                }
            },
        has_slot(st.ledger, r.slot) <==> st.admits(r.slot),
        !has_slot(st.ledger, r.slot) ==> st.report(r) == st,
{
    if has_slot(st.ledger, r.slot) {
        let p = slot_position(st.ledger, r.slot);
        assert forall|i: int| 0 <= i < st.ledger.len() implies (st.ledger[i].slot == r.slot <==> i
            == p) by {
            lemma_slot_position(st.ledger, i);
        }
    } else {
        assert forall|i: int| 0 <= i < st.ledger.len() implies st.ledger[i].slot != r.slot by {}
    }
}

/// Once the ledger is complete, no run of reports changes which slots it
/// holds, nor their winners.
pub proof fn lemma_complete_stays_complete(st: RaceState, reports: Seq<Report>)
    requires
        st.wf(),
        st.complete(),
    ensures
        st.replay(reports).complete(),
        st.replay(reports).ledger.len() == st.ledger.len(),
        forall|i: int|
            0 <= i < st.ledger.len() ==> {
                &&& (#[trigger] st.replay(reports).ledger[i]).slot == st.ledger[i].slot
                &&& st.replay(reports).ledger[i].winner == st.ledger[i].winner
                &&& st.replay(reports).ledger[i].winner_timestamp == st.ledger[i].winner_timestamp
            },
    decreases reports.len(),
{
    if reports.len() > 0 {
        let before = st.replay(reports.drop_last());
        lemma_complete_stays_complete(st, reports.drop_last());
        lemma_replay_keeps_wf(st, reports.drop_last());
        lemma_complete_admits_no_new_slot(before, reports.last());
        assert forall|i: int| 0 <= i < st.ledger.len() implies {
            &&& (#[trigger] st.replay(reports).ledger[i]).slot == st.ledger[i].slot
            &&& st.replay(reports).ledger[i].winner == st.ledger[i].winner
            &&& st.replay(reports).ledger[i].winner_timestamp == st.ledger[i].winner_timestamp
        } by {
            assert(before.ledger[i].slot == st.ledger[i].slot);
            assert(before.report(reports.last()).ledger[i].slot == before.ledger[i].slot);
        }
    }
}

/// A ledger that stops at its limit either holds every slot reported so far
/// or is full.
spec fn holds_all_or_full(st: RaceState, reports: Seq<Report>) -> bool {
    st.stop_at_max ==> st.ledger.len() >= st.max_slots || forall|j: int|
        0 <= j < reports.len() ==> has_slot(st.ledger, (#[trigger] reports[j]).slot)
}

/// A first sighting among the earlier reports is one among all of them.
proof fn lemma_first_sighting_extends(reports: Seq<Report>, rec: SlotRecord)
    requires
        reports.len() > 0,
        won_by_first_sighting(reports.drop_last(), rec),
    ensures
        won_by_first_sighting(reports, rec),
{
    let pre = reports.drop_last();
    let k = choose|k: int|
        #![trigger pre[k]]
        is_first_sighting(pre, k, rec.slot) && rec.winner == pre[k].stream && rec.winner_timestamp
            == pre[k].timestamp;
    assert(reports[k] == pre[k]);
    assert forall|j: int| 0 <= j < k implies (#[trigger] reports[j]).slot != rec.slot by {
        assert(pre[j].slot != rec.slot);
    }
    assert(is_first_sighting(reports, k, rec.slot));
}

/// One step of `lemma_winner_is_first_sighting`, with what the induction
/// needs beside.
proof fn lemma_winners_hold(max_slots: nat, stop_at_max: bool, reports: Seq<Report>)
    requires
        stop_at_max || never_resights_dropped(RaceState::empty(max_slots, stop_at_max), reports),
    ensures
        RaceState::empty(max_slots, stop_at_max).replay(reports).wf(),
        holds_all_or_full(RaceState::empty(max_slots, stop_at_max).replay(reports), reports),
        forall|i: int|
            0 <= i < RaceState::empty(max_slots, stop_at_max).replay(reports).ledger.len()
                ==> won_by_first_sighting(
                reports,
                #[trigger] RaceState::empty(max_slots, stop_at_max).replay(reports).ledger[i],
            ),
    decreases reports.len(),
{
    let start = RaceState::empty(max_slots, stop_at_max);
    lemma_replay_keeps_wf(start, reports);
    if reports.len() > 0 {
        let pre = reports.drop_last();
        let e = reports.last();
        let before = start.replay(pre);
        let after = before.report(e);
        assert(after == start.replay(reports));
        if !stop_at_max {
            assert forall|k: int| 0 <= k < pre.len() implies has_slot(
                start.replay(pre.take(k)).ledger,
                (#[trigger] pre[k]).slot,
            ) || !sighted(pre.take(k), pre[k].slot) by {
                assert(pre.take(k) =~= reports.take(k));
                assert(reports[k] == pre[k]);
            }
        }
        lemma_winners_hold(max_slots, stop_at_max, pre);
        lemma_replay_keeps_wf(start, pre);
        lemma_report_keeps_wf(before, e);
        // the last report finds the slot on record, or nobody has reported it
        if before.admits(e.slot) && !has_slot(before.ledger, e.slot) {
            if stop_at_max {
                assert(before.ledger.len() < before.max_slots);
                assert forall|j: int| 0 <= j < pre.len() implies (#[trigger] pre[j]).slot
                    != e.slot by {
                    assert(has_slot(before.ledger, pre[j].slot));
                }
            } else {
                assert(reports.take(pre.len() as int) =~= pre);
                assert(reports[pre.len() as int] == e);
                assert(!sighted(pre, e.slot));
            }
            assert(is_first_sighting(reports, pre.len() as int, e.slot)) by {
                assert forall|j: int| 0 <= j < pre.len() implies (#[trigger] reports[j]).slot
                    != e.slot by {
                    assert(pre[j].slot != e.slot);
                }
            }
            assert(won_by_first_sighting(reports, first_record(e)));
        }
        assert forall|i: int| 0 <= i < after.ledger.len() implies won_by_first_sighting(
            reports,
            #[trigger] after.ledger[i],
        ) by {
            let rec = after.ledger[i];
            if !before.admits(e.slot) {
                lemma_first_sighting_extends(reports, before.ledger[i]);
            } else if has_slot(before.ledger, e.slot) {
                let p = slot_position(before.ledger, e.slot);
                lemma_first_sighting_extends(reports, before.ledger[i]);
                let old_rec = before.ledger[i];
                let k = choose|k: int|
                    #![trigger reports[k]]
                    is_first_sighting(reports, k, old_rec.slot) && old_rec.winner
                        == reports[k].stream && old_rec.winner_timestamp == reports[k].timestamp;
                assert(is_first_sighting(reports, k, rec.slot) && rec.winner == reports[k].stream
                    && rec.winner_timestamp == reports[k].timestamp);
            } else {
                let grown = before.ledger.push(first_record(e));
                let shift: int = if !stop_at_max && grown.len() > max_slots {
                    1
                } else {
                    0
                };
                assert(rec == grown[i + shift]);
                if i + shift < before.ledger.len() {
                    lemma_first_sighting_extends(reports, before.ledger[i + shift]);
                }
            }
        }
        if stop_at_max && after.ledger.len() < max_slots {
            assert forall|j: int| 0 <= j < reports.len() implies has_slot(
                after.ledger,
                (#[trigger] reports[j]).slot,
            ) by {
                assert(before.admits(e.slot));
                if j < pre.len() {
                    assert(reports[j] == pre[j]);
                    assert(has_slot(before.ledger, pre[j].slot));
                    let q = slot_position(before.ledger, pre[j].slot);
                    assert(after.ledger[q].slot == pre[j].slot);
                } else {
                    if has_slot(before.ledger, e.slot) {
                        let q = slot_position(before.ledger, e.slot);
                        assert(after.ledger[q].slot == e.slot);
                    } else {
                        assert(after.ledger[before.ledger.len() as int].slot == e.slot);
                    }
                }
            }
        }
    }
}

/// Over any run of reports from an empty ledger, no slot has more than one
/// record, and the winner of each record is the stream of the first report of
/// its slot, whatever the timestamps of later reports. Where the ledger lets
/// old records go, this holds of the runs in which no slot is reported again
/// after its record has left.
pub proof fn lemma_winner_is_first_sighting(
    max_slots: nat,
    stop_at_max: bool,
    reports: Seq<Report>,
)
    requires
        stop_at_max || never_resights_dropped(RaceState::empty(max_slots, stop_at_max), reports),
    ensures
        slots_unique(RaceState::empty(max_slots, stop_at_max).replay(reports).ledger),
        forall|i: int|
            0 <= i < RaceState::empty(max_slots, stop_at_max).replay(reports).ledger.len()
                ==> won_by_first_sighting(
                reports,
                #[trigger] RaceState::empty(max_slots, stop_at_max).replay(reports).ledger[i],
            ),
{
    lemma_winners_hold(max_slots, stop_at_max, reports);
}

} // verus!

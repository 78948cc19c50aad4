use slot_race::referee::{RaceEvent, Referee, ReportOutcome};

fn name(s: &str) -> String {
    s.to_string()
}

#[test]
fn two_streams_two_slots() {
    let mut referee = Referee::new(10, false);
    assert!(referee.process_slot_report(1, name("A"), 100));
    assert!(referee.process_slot_report(1, name("B"), 250));
    assert!(referee.process_slot_report(2, name("B"), 50));
    assert!(referee.process_slot_report(2, name("A"), 900));

    let ledger = referee.results();
    assert_eq!(ledger.len(), 2);
    assert_eq!(ledger[0].slot, 1);
    assert_eq!(ledger[0].winner, "A");
    assert_eq!(ledger[0].winner_timestamp, 100);
    assert_eq!(ledger[0].finish_time("A"), Some(100));
    assert_eq!(ledger[0].finish_time("B"), Some(250));
    assert_eq!(ledger[0].finish_count(), 2);
    assert_eq!(ledger[1].slot, 2);
    assert_eq!(ledger[1].winner, "B");
    assert_eq!(ledger[1].winner_timestamp, 50);
    assert_eq!(ledger[1].finish_time("A"), Some(900));
    assert_eq!(ledger[1].finish_time("B"), Some(50));
    assert!(!referee.is_complete());
}

#[test]
fn frozen_ledger_rejects_new_slots_but_merges_late_finishes() {
    let mut referee = Referee::new(3, true);
    assert!(!referee.is_complete());
    assert!(referee.process_slot_report(10, name("A"), 1));
    assert!(referee.process_slot_report(11, name("A"), 2));
    assert!(!referee.is_complete());
    assert!(referee.process_slot_report(12, name("B"), 3));
    assert!(referee.is_complete());

    assert!(!referee.process_slot_report(13, name("A"), 4));
    assert_eq!(referee.results().len(), 3);
    assert_eq!(referee.record_report(14, name("C"), 5), ReportOutcome::Rejected);
    assert_eq!(referee.stream_names().len(), 2);
    assert_eq!(referee.results().len(), 3);

    assert!(referee.process_slot_report(11, name("B"), 9));
    assert_eq!(referee.results().len(), 3);
    assert_eq!(referee.results()[1].slot, 11);
    assert_eq!(referee.results()[1].finish_time("B"), Some(9));
    assert_eq!(referee.results()[1].winner, "A");
    assert_eq!(referee.results()[1].winner_timestamp, 2);
    assert!(referee.is_complete());
}

#[test]
fn winner_is_the_first_report_not_the_earliest_timestamp() {
    let mut referee = Referee::new(10, false);
    assert!(referee.process_slot_report(7, name("late"), 5_000));
    assert!(referee.process_slot_report(7, name("early"), 1_000));
    let rec = &referee.results()[0];
    assert_eq!(referee.results().len(), 1);
    assert_eq!(rec.winner, "late");
    assert_eq!(rec.winner_timestamp, 5_000);
    assert_eq!(rec.finish_time("early"), Some(1_000));
}

#[test]
fn ring_ledger_lets_the_oldest_record_go() {
    let mut referee = Referee::new(2, false);
    for slot in 1..=5u64 {
        assert!(referee.process_slot_report(slot, name("A"), slot as u128));
        assert!(referee.results().len() <= 2);
    }
    assert_eq!(referee.results().len(), 2);
    assert_eq!(referee.results()[0].slot, 4);
    assert_eq!(referee.results()[1].slot, 5);
    assert!(!referee.is_complete());
    // a slot that has left is new again
    assert!(referee.process_slot_report(1, name("B"), 99));
    assert_eq!(referee.results()[1].slot, 1);
    assert_eq!(referee.results()[1].winner, "B");
}

#[test]
fn ring_ledger_of_no_slots_stays_empty() {
    let mut referee = Referee::new(0, false);
    assert!(referee.process_slot_report(1, name("A"), 1));
    assert_eq!(referee.results().len(), 0);
    assert_eq!(referee.stream_names().len(), 1);
}

#[test]
fn frozen_ledger_of_no_slots_is_complete_at_once() {
    let mut referee = Referee::new(0, true);
    assert!(referee.is_complete());
    assert!(!referee.process_slot_report(1, name("A"), 1));
    assert_eq!(referee.results().len(), 0);
    assert_eq!(referee.stream_names().len(), 0);
}

#[test]
fn a_repeated_report_overwrites_the_finish_but_not_the_winner() {
    let mut referee = Referee::new(4, false);
    referee.process_slot_report(3, name("A"), 100);
    referee.process_slot_report(3, name("B"), 200);
    referee.process_slot_report(3, name("B"), 300);
    referee.process_slot_report(3, name("A"), 400);
    let rec = &referee.results()[0];
    assert_eq!(rec.finish_count(), 2);
    assert_eq!(rec.finish_time("B"), Some(300));
    assert_eq!(rec.finish_time("A"), Some(400));
    assert_eq!(rec.finish_time("C"), None);
    assert_eq!(rec.winner, "A");
    assert_eq!(rec.winner_timestamp, 100);
}

#[test]
fn outcomes_carry_position_and_time_behind() {
    let mut referee = Referee::new(4, false);
    assert_eq!(
        referee.record_report(1, name("A"), 1_000),
        ReportOutcome::FirstSighting { streams: 1 }
    );
    assert_eq!(
        referee.record_report(1, name("B"), 1_750),
        ReportOutcome::LaterFinish {
            position: 2,
            streams: 2,
            time_behind_ns: 750,
            race_complete: true
        }
    );
    assert_eq!(
        referee.record_report(1, name("C"), 900),
        ReportOutcome::LaterFinish {
            position: 3,
            streams: 3,
            time_behind_ns: 0,
            race_complete: true
        }
    );
    assert_eq!(
        referee.record_report(2, name("C"), 2_000),
        ReportOutcome::FirstSighting { streams: 3 }
    );
    assert_eq!(
        referee.record_report(2, name("A"), 2_001),
        ReportOutcome::LaterFinish {
            position: 2,
            streams: 3,
            time_behind_ns: 1,
            race_complete: false
        }
    );
}

#[test]
fn events_are_processed_like_reports() {
    let mut referee = Referee::new(1, true);
    let first = RaceEvent::SlotReport { slot: 5, stream_id: name("A"), timestamp: 10 };
    let second = RaceEvent::SlotReport { slot: 6, stream_id: name("B"), timestamp: 20 };
    assert!(referee.process_event(first));
    assert!(!referee.process_event(second));
    assert_eq!(referee.results().len(), 1);
    assert_eq!(referee.results()[0].slot, 5);
    assert_eq!(referee.max_slots(), 1);
    assert!(referee.stop_at_max());
}

#[test]
fn the_winner_of_a_slot_is_found_while_its_record_stays() {
    let mut referee = Referee::new(2, false);
    assert_eq!(referee.winner_of(1), None);
    referee.process_slot_report(1, name("A"), 10);
    referee.process_slot_report(1, name("B"), 5);
    referee.process_slot_report(2, name("B"), 20);
    assert_eq!(referee.winner_of(1).map(|w| w.as_str()), Some("A"));
    assert_eq!(referee.winner_of(2).map(|w| w.as_str()), Some("B"));
    assert_eq!(referee.winner_of(3), None);
    referee.process_slot_report(3, name("C"), 30);
    assert_eq!(referee.winner_of(1), None);
    assert_eq!(referee.winner_of(3).map(|w| w.as_str()), Some("C"));
}

use slot_race::metrics::rank_by_median;
use slot_race::metrics::StreamMetrics;
use slot_race::referee::Referee;
use slot_race::stats::Median;

fn name(s: &str) -> String {
    s.to_string()
}

fn scenario() -> Referee {
    let mut referee = Referee::new(10, false);
    referee.process_slot_report(1, name("A"), 100);
    referee.process_slot_report(1, name("B"), 250);
    referee.process_slot_report(2, name("B"), 50);
    referee.process_slot_report(2, name("A"), 900);
    referee
}

#[test]
fn metrics_of_two_streams_over_two_slots() {
    let referee = scenario();
    let metrics = referee.calculate_stream_metrics();
    assert_eq!(metrics.len(), 2);
    // the smaller median comes first, though A was heard before B
    assert_eq!(metrics[0].name, "B");
    assert_eq!(metrics[0].wins, 1);
    assert_eq!(metrics[0].total_races, 2);
    assert_eq!(metrics[0].median_time_behind, Median { whole_ns: 75, plus_half: false });
    assert_eq!(metrics[0].p90_time_behind_ns, 150);
    assert_eq!(metrics[0].p95_time_behind_ns, 150);
    assert_eq!(metrics[0].p99_time_behind_ns, 150);
    assert_eq!(metrics[0].win_rate_percent(), 50);
    assert_eq!(metrics[1].name, "A");
    assert_eq!(metrics[1].wins, 1);
    assert_eq!(metrics[1].total_races, 2);
    assert_eq!(metrics[1].median_time_behind, Median { whole_ns: 425, plus_half: false });
    assert_eq!(metrics[1].p90_time_behind_ns, 850);
    assert_eq!(metrics[1].p95_time_behind_ns, 850);
    assert_eq!(metrics[1].p99_time_behind_ns, 850);
    assert_eq!(metrics[1].win_rate_percent(), 50);
}

#[test]
fn streams_with_equal_medians_stay_in_the_order_of_first_hearing() {
    let mut referee = Referee::new(10, false);
    referee.process_slot_report(1, name("first"), 100);
    referee.process_slot_report(1, name("second"), 140);
    referee.process_slot_report(2, name("second"), 300);
    referee.process_slot_report(2, name("first"), 340);
    referee.process_slot_report(3, name("third"), 500);
    // first and second are both 0 and 40 behind; third is never behind
    let metrics = referee.calculate_stream_metrics();
    let names: Vec<&str> = metrics.iter().map(|m| m.name.as_str()).collect();
    assert_eq!(names, vec!["third", "first", "second"]);
    assert_eq!(metrics[1].median_time_behind, Median { whole_ns: 20, plus_half: false });
    assert_eq!(metrics[2].median_time_behind, Median { whole_ns: 20, plus_half: false });
}

#[test]
fn snapshot_ranks_the_fastest_median_first() {
    let mut referee = scenario();
    let ranked = referee.snapshot_metrics();
    assert_eq!(ranked.len(), 2);
    assert_eq!(ranked[0].name, "B");
    assert_eq!(ranked[1].name, "A");
    // a snapshot is a copy: later reports do not reach it
    referee.process_slot_report(3, name("A"), 1_000);
    assert_eq!(ranked[0].name, "B");
    assert_eq!(ranked[1].total_races, 2);
    assert_eq!(referee.snapshot_metrics()[0].name, "A");
}

#[test]
fn summary_counts_complete_and_partial_races() {
    let mut referee = scenario();
    referee.process_slot_report(3, name("A"), 1_000);
    let summary = referee.summarize();
    assert_eq!(summary.total_slots, 3);
    assert_eq!(summary.streams, 2);
    assert_eq!(summary.completed_races, 2);
    assert_eq!(summary.partial_races, 1);
    assert_eq!(summary.metrics.len(), 2);
    // A: behind 0, 850, 0 -> median 0; B: behind 150, 0 -> median 75
    assert_eq!(summary.fastest().map(|m| m.name.as_str()), Some("A"));
    assert_eq!(summary.metrics[0].wins, 2);
    assert_eq!(summary.metrics[0].total_races, 3);
    assert_eq!(summary.metrics[0].win_rate_percent(), 66);
    assert_eq!(summary.metrics[1].name, "B");
}

#[test]
fn summary_of_an_empty_ledger() {
    let referee = Referee::new(5, true);
    let summary = referee.summarize();
    assert_eq!(summary.total_slots, 0);
    assert_eq!(summary.streams, 0);
    assert_eq!(summary.completed_races, 0);
    assert_eq!(summary.partial_races, 0);
    assert!(summary.metrics.is_empty());
    assert!(summary.fastest().is_none());
}

#[test]
fn streams_without_a_race_on_the_ledger_are_left_out() {
    let mut referee = Referee::new(1, false);
    referee.process_slot_report(1, name("gone"), 10);
    referee.process_slot_report(2, name("here"), 20);
    assert_eq!(referee.stream_names().len(), 2);
    let metrics = referee.calculate_stream_metrics();
    assert_eq!(metrics.len(), 1);
    assert_eq!(metrics[0].name, "here");
    assert_eq!(metrics[0].wins, 1);
    assert_eq!(metrics[0].total_races, 1);
    assert_eq!(metrics[0].win_rate_percent(), 100);
}

#[test]
fn a_winner_that_reports_again_later_counts_as_behind() {
    let mut referee = Referee::new(4, false);
    referee.process_slot_report(1, name("A"), 100);
    referee.process_slot_report(1, name("A"), 160);
    let metrics = referee.calculate_stream_metrics();
    assert_eq!(metrics[0].wins, 1);
    assert_eq!(metrics[0].median_time_behind, Median { whole_ns: 60, plus_half: false });
}

fn standing(name: &str, whole_ns: u128, plus_half: bool) -> StreamMetrics {
    StreamMetrics {
        name: name.to_string(),
        wins: 0,
        total_races: 1,
        median_time_behind: Median { whole_ns, plus_half },
        p90_time_behind_ns: 0,
        p95_time_behind_ns: 0,
        p99_time_behind_ns: 0,
    }
}

#[test]
fn ranking_keeps_equal_medians_in_their_order() {
    let ranked = rank_by_median(vec![
        standing("c", 7, false),
        standing("a", 5, true),
        standing("b", 5, true),
        standing("d", 5, false),
        standing("e", 7, false),
    ]);
    let names: Vec<&str> = ranked.iter().map(|m| m.name.as_str()).collect();
    assert_eq!(names, vec!["d", "a", "b", "c", "e"]);
    assert!(rank_by_median(Vec::new()).is_empty());
}

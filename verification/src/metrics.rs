//! What the ledger says of each stream: how often it won, and how far behind
//! the winner it finished.

use crate::ledger::{time_behind, RaceState, SlotRecord};
use crate::referee::{names_of, records_of, Referee, SlotResult};
use crate::stats::{calculate_median, calculate_percentiles, median_doubled, tail_latency, Median};
use std::collections::VecDeque;
use vstd::prelude::*;

verus! {

/// A stream's time behind the winner in each record in which it has a
/// finish, in the order of the ledger.
pub open spec fn behind_times(ledger: Seq<SlotRecord>, stream: Seq<char>) -> Seq<u128>
    decreases ledger.len(),
{
    if ledger.len() == 0 {
        Seq::empty()
    } else {
        let earlier = behind_times(ledger.drop_last(), stream);
        let rec = ledger.last();
        if rec.finishes.contains_key(stream) {
            earlier.push(time_behind(rec.finishes[stream], rec.winner_timestamp))
        } else {
            earlier
        }
    }
}

/// The number of records that the stream has won.
pub open spec fn wins(ledger: Seq<SlotRecord>, stream: Seq<char>) -> nat
    decreases ledger.len(),
{
    if ledger.len() == 0 {
        0
    } else {
        wins(ledger.drop_last(), stream) + if ledger.last().winner == stream {
            1nat
        } else {
            0nat
        }
    }
}

/// The number of records in which every one of `streams` streams has a
/// finish.
pub open spec fn completed_races(ledger: Seq<SlotRecord>, streams: nat) -> nat
    decreases ledger.len(),
{
    if ledger.len() == 0 {
        0
    } else {
        completed_races(ledger.drop_last(), streams) + if ledger.last().finishes.len()
            == streams {
            1nat
        } else {
            0nat
        }
    }
}

/// A stream's standing, as numbers.
pub struct Standing {
    pub name: Seq<char>,
    pub wins: nat,
    pub total_races: nat,
    pub median_doubled: int,
    pub p90: u128,
    pub p95: u128,
    pub p99: u128,
}

/// The standing of `stream` by the ledger: its wins, the races it took part
/// in, and the median and the worst tenth, twentieth and hundredth of its
/// times behind the winner.
pub open spec fn standing_of(ledger: Seq<SlotRecord>, stream: Seq<char>) -> Standing {
    let behind = behind_times(ledger, stream);
    Standing {
        name: stream,
        wins: wins(ledger, stream),
        total_races: behind.len(),
        median_doubled: median_doubled(behind),
        p90: tail_latency(behind, 10),
        p95: tail_latency(behind, 5),
        p99: tail_latency(behind, 1),
    }
}

/// The standings of the first `upto` streams, in their order, without those
/// that took part in no race on the ledger.
pub open spec fn standings(st: RaceState, upto: int) -> Seq<Standing>
    decreases upto,
{
    if upto <= 0 {
        Seq::empty()
    } else {
        let earlier = standings(st, upto - 1);
        let stream = st.streams[upto - 1];
        if behind_times(st.ledger, stream).len() == 0 {
            earlier
        } else {
            earlier.push(standing_of(st.ledger, stream))
        }
    }
}

/// Whether `output` is `input` in the order given by `origin`, which names
/// for each place of `output` the place in `input` that it was taken from:
/// every place once, smaller medians first, and equal medians in the order
/// of `input`.
pub open spec fn is_stable_ranking(
    input: Seq<Standing>,
    output: Seq<Standing>,
    origin: Seq<int>,
) -> bool {
    &&& output.len() == input.len()
    &&& origin.len() == input.len()
    &&& forall|k: int|
        0 <= k < origin.len() ==> 0 <= #[trigger] origin[k] < input.len() && output[k]
            == input[origin[k]]
    &&& forall|i: int, j: int|
        0 <= i < j < origin.len() ==> #[trigger] origin[i] != #[trigger] origin[j]
    &&& forall|i: int, j: int|
        0 <= i < j < origin.len() ==> in_rank_order(
            output[i].median_doubled,
            #[trigger] origin[i],
            output[j].median_doubled,
            #[trigger] origin[j],
        )
}

/// Whether a standing with median `m1`, taken from place `o1`, comes before
/// one with median `m2` taken from place `o2`.
pub open spec fn in_rank_order(m1: int, o1: int, m2: int, o2: int) -> bool {
    m1 < m2 || (m1 == m2 && o1 < o2)
}

/// Whether `output` is `input` ranked by median, fastest first, with equal
/// medians left in the order of `input`.
pub open spec fn ranked_by_median(input: Seq<Standing>, output: Seq<Standing>) -> bool {
    exists|origin: Seq<int>| is_stable_ranking(input, output, origin)
}

/// One stream's standing.
#[derive(Debug)]
pub struct StreamMetrics {
    pub name: String,
    pub wins: usize,
    pub total_races: usize,
    pub median_time_behind: Median,
    /// The time behind the winner that bounds the worst tenth.
    pub p90_time_behind_ns: u128,
    /// The time behind the winner that bounds the worst twentieth.
    pub p95_time_behind_ns: u128,
    /// The time behind the winner that bounds the worst hundredth.
    pub p99_time_behind_ns: u128,
}

impl View for StreamMetrics {
    type V = Standing;

    open spec fn view(&self) -> Standing {
        Standing {
            name: self.name@,
            wins: self.wins as nat,
            total_races: self.total_races as nat,
            median_doubled: self.median_time_behind.doubled(),
            p90: self.p90_time_behind_ns,
            p95: self.p95_time_behind_ns,
            p99: self.p99_time_behind_ns,
        }
    }
}

impl StreamMetrics {
    /// The share of its races that the stream has won, in whole hundredths,
    /// rounded down; zero where it has had no race.
    pub fn win_rate_percent(&self) -> (rate: u128)
        ensures
            rate == if self.total_races == 0 {
                0
            } else {
                (self.wins * 100) / (self.total_races as int)
            },
    {
        if self.total_races == 0 {
            0
        } else {
            let wins: u128 = self.wins as u128;
            let races: u128 = self.total_races as u128;
            wins * 100 / races
        }
    }
}

/// The views of the metrics, in their order.
pub open spec fn views_of(metrics: Seq<StreamMetrics>) -> Seq<Standing> {
    metrics.map_values(|m: StreamMetrics| m@)
}

/// Ranks the metrics by median, fastest first; equal medians stay in the
/// order in which they came.
pub fn rank_by_median(metrics: Vec<StreamMetrics>) -> (ranked: Vec<StreamMetrics>)
    ensures
        ranked_by_median(views_of(metrics@), views_of(ranked@)),
{
    let ghost input = views_of(metrics@);
    let mut rest = metrics;
    let mut ranked: Vec<StreamMetrics> = Vec::new();
    let ghost mut origin: Seq<int> = Seq::empty();
    while rest.len() > 0
        invariant
            rest@.len() <= input.len(),
            views_of(rest@) == input.take(rest@.len() as int),
            origin.len() == ranked@.len(),
            ranked@.len() + rest@.len() == input.len(),
            forall|k: int|
                0 <= k < origin.len() ==> rest@.len() <= #[trigger] origin[k] < input.len()
                    && ranked@[k]@ == input[origin[k]],
            forall|i: int, j: int|
                0 <= i < j < origin.len() ==> #[trigger] origin[i] != #[trigger] origin[j],
            forall|i: int, j: int|
                0 <= i < j < origin.len() ==> in_rank_order(
                    ranked@[i]@.median_doubled,
                    #[trigger] origin[i],
                    ranked@[j]@.median_doubled,
                    #[trigger] origin[j],
                ),
        decreases rest@.len(),
    {
        let ghost from = rest@.len() - 1;
        let ghost rest_before = rest@;
        let next = rest.pop().unwrap();
        proof {
            assert(views_of(rest_before)[from] == input[from]);
            assert(views_of(rest@) =~= input.take(rest@.len() as int));
        }
        let mut p: usize = 0;
        while p < ranked.len() && !next.median_time_behind.at_most(&ranked[p].median_time_behind)
            invariant
                p <= ranked@.len(),
                forall|i: int|
                    0 <= i < p ==> (#[trigger] ranked@[i])@.median_doubled
                        < next@.median_doubled,
            decreases ranked@.len() - p,
        {
            p = p + 1;
        }
        let ghost ranked_before = ranked@;
        let ghost origin_before = origin;
        ranked.insert(p, next);
        proof {
            origin = origin_before.insert(p as int, from);
            assert forall|k: int| 0 <= k < origin.len() implies rest@.len() <= #[trigger] origin[k]
                < input.len() && ranked@[k]@ == input[origin[k]] by {
                if k < p {
                    assert(origin[k] == origin_before[k]);
                } else if k > p {
                    assert(origin[k] == origin_before[k - 1]);
                }
            }
            assert forall|i: int, j: int| 0 <= i < j < origin.len() implies #[trigger] origin[i]
                != #[trigger] origin[j] && in_rank_order(
                ranked@[i]@.median_doubled,
                origin[i],
                ranked@[j]@.median_doubled,
                origin[j],
            ) by {
                let oi = if i < p {
                    i
                } else {
                    i - 1
                };
                let oj = if j < p {
                    j
                } else {
                    j - 1
                };
                if i != p && j != p {
                    assert(origin[i] == origin_before[oi] && origin[j] == origin_before[oj]);
                    assert(ranked@[i] == ranked_before[oi] && ranked@[j] == ranked_before[oj]);
                    assert(origin_before[oi] != origin_before[oj]);
                    assert(in_rank_order(
                        ranked_before[oi]@.median_doubled,
                        origin_before[oi],
                        ranked_before[oj]@.median_doubled,
                        origin_before[oj],
                    ));
                } else if i == p {
                    assert(origin[j] == origin_before[oj]);
                    assert(ranked@[j] == ranked_before[oj]);
                    assert(ranked_before[p as int]@.median_doubled >= next@.median_doubled);
                    if oj > p {
                        assert(in_rank_order(
                            ranked_before[p as int]@.median_doubled,
                            origin_before[p as int],
                            ranked_before[oj]@.median_doubled,
                            origin_before[oj],
                        ));
                    }
                } else {
                    assert(origin[i] == origin_before[i]);
                    assert(ranked@[i] == ranked_before[i]);
                }
            }
        }
    }
    proof {
        assert(is_stable_ranking(input, views_of(ranked@), origin));
    }
    ranked
}

/// The ledger in figures, with the streams ranked.
#[derive(Debug)]
pub struct RaceSummary {
    /// The number of records on the ledger.
    pub total_slots: usize,
    /// The number of streams heard so far.
    pub streams: usize,
    /// The number of records in which every stream heard so far has a finish.
    pub completed_races: usize,
    /// The number of the other records.
    pub partial_races: usize,
    /// The standings, fastest median first.
    pub metrics: Vec<StreamMetrics>,
}

impl RaceSummary {
    /// The stream with the smallest median, if any stream has a standing.
    pub fn fastest(&self) -> (leader: Option<&StreamMetrics>)
        ensures
            match leader {
                Some(m) => self.metrics@.len() > 0 && *m == self.metrics@[0],
                None => self.metrics@.len() == 0,
            },
    {
        if self.metrics.len() > 0 {
            Some(&self.metrics[0])
        } else {
            None
        }
    }
}

/// Whether every record holds a finish of its winner.
pub open spec fn winners_finished(ledger: Seq<SlotRecord>) -> bool {
    forall|i: int|
        0 <= i < ledger.len() ==> (#[trigger] ledger[i]).finishes.contains_key(ledger[i].winner)
}

/// One stream's wins and times behind the winner, from the records.
fn gather_stream(results: &VecDeque<SlotResult>, stream_name: &String) -> (out: (usize, Vec<u128>))
    requires
        winners_finished(records_of(results@)),
    ensures
        out.0 == wins(records_of(results@), stream_name@),
        out.1@ == behind_times(records_of(results@), stream_name@),
{
    let ghost ledger = records_of(results@);
    let mut times: Vec<u128> = Vec::new();
    let mut won: usize = 0;
    let mut j: usize = 0;
    while j < results.len()
        invariant
            j <= results@.len(),
            ledger == records_of(results@),
            winners_finished(ledger),
            won <= j,
            won == wins(ledger.take(j as int), stream_name@),
            times@ == behind_times(ledger.take(j as int), stream_name@),
        decreases results@.len() - j,
    {
        let result = &results[j];
        proof {
            assert(ledger.take(j + 1).drop_last() =~= ledger.take(j as int));
            assert(ledger.take(j + 1).last() == result@);
            assert(ledger[j as int].finishes.contains_key(ledger[j as int].winner));
        }
        match result.finish_times.get(stream_name.as_str()) {
            Some(my_time) => {
                times.push((*my_time).saturating_sub(result.winner_timestamp));
                if result.winner == *stream_name {
                    won = won + 1;
                }
            },
            None => {},
        }
        j = j + 1;
    }
    proof {
        assert(ledger.take(results@.len() as int) =~= ledger);
    }
    (won, times)
}

impl Referee {
    /// The standing of every stream heard so far that has a finish on the
    /// ledger, in the order in which the streams were first heard.
    fn gather_standings(&self) -> (metrics: Vec<StreamMetrics>)
        requires
            self.wf(),
        ensures
            views_of(metrics@) == standings(self@, self@.streams.len() as int),
    {
        let names = self.stream_names();
        let results = self.results();
        let mut metrics: Vec<StreamMetrics> = Vec::new();
        let mut i: usize = 0;
        while i < names.len()
            invariant
                self.wf(),
                i <= names@.len(),
                names_of(names@) == self@.streams,
                records_of(results@) == self@.ledger,
                views_of(metrics@) == standings(self@, i as int),
            decreases names@.len() - i,
        {
            let stream_name = &names[i];
            assert(stream_name@ == self@.streams[i as int]);
            let (won, times) = gather_stream(results, stream_name);
            if times.len() > 0 {
                let median = calculate_median(times.as_slice());
                let (p90, p95, p99) = calculate_percentiles(times.as_slice());
                let ghost before = metrics@;
                metrics.push(
                    StreamMetrics {
                        name: stream_name.clone(),
                        wins: won,
                        total_races: times.len(),
                        median_time_behind: median,
                        p90_time_behind_ns: p90,
                        p95_time_behind_ns: p95,
                        p99_time_behind_ns: p99,
                    },
                );
                proof {
                    assert(views_of(metrics@) =~= views_of(before).push(
                        standing_of(self@.ledger, stream_name@),
                    ));
                }
            }
            i = i + 1;
        }
        metrics
    }

    /// The standing of every stream heard so far that has a finish on the
    /// ledger, ranked by median time behind the winner, fastest first;
    /// streams with equal medians stay in the order in which they were first
    /// heard.
    pub fn calculate_stream_metrics(&self) -> (metrics: Vec<StreamMetrics>)
        requires
            self.wf(),
        ensures
            ranked_by_median(standings(self@, self@.streams.len() as int), views_of(metrics@)),
    {
        rank_by_median(self.gather_standings())
    }

    /// The ranked standings as they are now: a copy that later reports do
    /// not change.
    pub fn snapshot_metrics(&self) -> (metrics: Vec<StreamMetrics>)
        requires
            self.wf(),
        ensures
            ranked_by_median(standings(self@, self@.streams.len() as int), views_of(metrics@)),
    {
        self.calculate_stream_metrics()
    }

    /// The summary of the ledger: how many records it holds, in how many of
    /// them every stream has finished, and the ranked standings.
    pub fn summarize(&self) -> (summary: RaceSummary)
        requires
            self.wf(),
        ensures
            summary.total_slots == self@.ledger.len(),
            summary.streams == self@.streams.len(),
            summary.completed_races == completed_races(self@.ledger, self@.streams.len()),
            summary.completed_races + summary.partial_races == summary.total_slots,
            ranked_by_median(
                standings(self@, self@.streams.len() as int),
                views_of(summary.metrics@),
            ),
    {
        let results = self.results();
        let streams = self.stream_names().len();
        let ghost ledger = self@.ledger;
        let mut completed: usize = 0;
        let mut j: usize = 0;
        while j < results.len()
            invariant
                j <= results@.len(),
                ledger == records_of(results@),
                completed <= j,
                completed == completed_races(ledger.take(j as int), streams as nat),
            decreases results@.len() - j,
        {
            proof {
                assert(ledger.take(j + 1).drop_last() =~= ledger.take(j as int));
                assert(ledger.take(j + 1).last() == results@[j as int]@);
            }
            if results[j].finish_times.len() == streams {
                completed = completed + 1;
            }
            j = j + 1;
        }
        proof {
            assert(ledger.take(results@.len() as int) =~= ledger);
        }
        RaceSummary {
            total_slots: results.len(),
            streams,
            completed_races: completed,
            partial_races: results.len() - completed,
            metrics: self.snapshot_metrics(),
        }
    }
}

} // verus!

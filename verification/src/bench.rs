//! The HTTP speed test: how many requests it makes, what each outcome
//! counts as, and which statistics it reports.

use vstd::prelude::*;

use crate::json::{write_json, Json, JsonNumber, JsonView, NumberView, json_written, members_view, lemma_members_view};
use crate::text::owned;

verus! {

/// The number of requests a speed test makes: the requested number, kept
/// between 1 and 100.
pub open spec fn clamp_iterations(requested: nat) -> nat {
    if requested < 1 {
        1
    } else if requested > 100 {
        100
    } else {
        requested
    }
}

/// Clamps the requested number of requests to 1..=100.
pub fn bench_iterations(requested: usize) -> (n: usize)
    ensures
        n as nat == clamp_iterations(requested as nat),
        1 <= n <= 100,
{
    if requested < 1 {
        1
    } else if requested > 100 {
        100
    } else {
        requested
    }
}

/// What one request of a speed test came to.
#[derive(Debug, Clone, Copy)]
pub enum Attempt {
    /// the server answered with an error status
    HttpError,
    /// the request could not be sent or answered
    RequestError,
    /// a streamed answer was read to its end; `first_chunk` tells whether
    /// any chunk arrived
    Streamed { first_chunk: bool },
    /// a complete answer was read; `completion_tokens` is its reported
    /// count, `positive_latency` whether its latency was above zero
    Completed { completion_tokens: u64, positive_latency: bool },
}

/// The counts a speed test keeps while it runs.
#[derive(Debug, Clone, Copy)]
pub struct BenchTally {
    /// requests the test makes
    pub iterations: usize,
    /// requests made so far
    pub attempts: usize,
    /// failed requests
    pub failures: usize,
    /// latencies measured (one per answered request)
    pub latencies: usize,
    /// times to first chunk measured
    pub ttfts: usize,
    /// token rates measured
    pub rates: usize,
}

impl BenchTally {
    /// Every request is either a failure or has its latency measured; time
    /// to first chunk and token rate are measured only with a latency.
    pub open spec fn wf(&self) -> bool {
        &&& self.attempts <= self.iterations
        &&& self.failures + self.latencies == self.attempts
        &&& self.ttfts <= self.latencies
        &&& self.rates <= self.latencies
    }

    /// The counts of a test that has not started.
    pub fn new(iterations: usize) -> (t: BenchTally)
        ensures
            t.wf(),
            t.iterations == iterations,
            t.attempts == 0 && t.failures == 0 && t.latencies == 0 && t.ttfts == 0 && t.rates == 0,
    {
        BenchTally { iterations, attempts: 0, failures: 0, latencies: 0, ttfts: 0, rates: 0 }
    }

    /// Counts one more request's outcome.
    pub fn record(&mut self, a: Attempt)
        requires
            old(self).wf(),
            old(self).attempts < old(self).iterations,
        ensures
            final(self).wf(),
            final(self).iterations == old(self).iterations,
            final(self).attempts == old(self).attempts + 1,
            final(self).failures == old(self).failures + (match a {
                Attempt::HttpError | Attempt::RequestError => 1int,
                _ => 0int,
            }),
            final(self).latencies == old(self).latencies + (match a {
                Attempt::HttpError | Attempt::RequestError => 0int,
                _ => 1int,
            }),
            final(self).ttfts == old(self).ttfts + (match a {
                Attempt::Streamed { first_chunk } => if first_chunk { 1int } else { 0int },
                _ => 0int,
            }),
            final(self).rates == old(self).rates + (match a {
                Attempt::Completed { completion_tokens, positive_latency } =>
                    if completion_tokens > 0 && positive_latency { 1int } else { 0int },
                _ => 0int,
            }),
    {
        self.attempts = self.attempts + 1;
        match a {
            Attempt::HttpError | Attempt::RequestError => {
                self.failures = self.failures + 1;
            },
            Attempt::Streamed { first_chunk } => {
                self.latencies = self.latencies + 1;
                if first_chunk {
                    self.ttfts = self.ttfts + 1;
                }
            },
            Attempt::Completed { completion_tokens, positive_latency } => {
                self.latencies = self.latencies + 1;
                if completion_tokens > 0 && positive_latency {
                    self.rates = self.rates + 1;
                }
            },
        }
    }

    /// The requests that got an answer.
    pub fn successes(&self) -> (n: usize)
        requires
            self.wf(),
        ensures
            n == self.attempts - self.failures,
            n == self.latencies,
    {
        self.attempts - self.failures
    }
}

/// The statistics a speed test reports.
#[derive(Debug, Clone, Copy, PartialEq, Eq, Structural)]
pub enum Stat {
    /// mean latency
    LatencyMean,
    /// median latency
    LatencyP50,
    /// 95th percentile latency
    LatencyP95,
    /// the token rate under its older name: sum of rates over their count,
    /// or over 1 when there is none
    RateLegacy,
    /// mean time to first chunk
    TtftMean,
    /// median time to first chunk
    TtftP50,
    /// mean token rate
    RateMean,
    /// share of requests answered
    SuccessRate,
}

/// One reported statistic: metric name, unit and what it measures.
pub struct StatRow {
    pub metric: &'static str,
    pub unit: Option<&'static str>,
    pub stat: Stat,
}

/// The statistics reported for a finished test, in order: the latency
/// block when some latency was measured, the first-chunk block when some
/// time to first chunk was, the token rate when some rate was, and the
/// success rate always.
pub open spec fn report_plan(latencies: nat, ttfts: nat, rates: nat) -> Seq<(Seq<char>, Option<Seq<char>>, Stat)> {
    (if latencies > 0 {
        seq![
            ("latency_ms"@, Some("ms"@), Stat::LatencyMean),
            ("latency_p50_ms"@, Some("ms"@), Stat::LatencyP50),
            ("latency_p95_ms"@, Some("ms"@), Stat::LatencyP95),
            ("tg_tps"@, Some("tok/s"@), Stat::RateLegacy),
        ]
    } else {
        Seq::empty()
    }) + (if ttfts > 0 {
        seq![("ttft_ms"@, Some("ms"@), Stat::TtftMean), ("ttft_p50_ms"@, Some("ms"@), Stat::TtftP50)]
    } else {
        Seq::empty()
    }) + (if rates > 0 {
        seq![("tps"@, Some("tok/s"@), Stat::RateMean)]
    } else {
        Seq::empty()
    }) + seq![("success_rate"@, None::<Seq<char>>, Stat::SuccessRate)]
}

/// The value of a reported row.
pub open spec fn stat_row_view(r: StatRow) -> (Seq<char>, Option<Seq<char>>, Stat) {
    (r.metric@, match r.unit {
        Some(u) => Some(u@),
        None => None,
    }, r.stat)
}

/// Appends a row.
fn push_stat(v: &mut Vec<StatRow>, metric: &'static str, unit: Option<&'static str>, stat: Stat)
    ensures
        final(v)@.map_values(|r: StatRow| stat_row_view(r))
            == old(v)@.map_values(|r: StatRow| stat_row_view(r)).push(stat_row_view(StatRow { metric, unit, stat })),
{
    v.push(StatRow { metric, unit, stat });
    assert(v@.map_values(|r: StatRow| stat_row_view(r))
        =~= old(v)@.map_values(|r: StatRow| stat_row_view(r)).push(stat_row_view(StatRow { metric, unit, stat })));
}

impl BenchTally {
    /// The statistics to report once the test is over.
    pub fn report(&self) -> (r: Vec<StatRow>)
        ensures
            r@.map_values(|x: StatRow| stat_row_view(x))
                == report_plan(self.latencies as nat, self.ttfts as nat, self.rates as nat),
    {
        let mut r: Vec<StatRow> = Vec::new();
        if self.latencies > 0 {
            push_stat(&mut r, "latency_ms", Some("ms"), Stat::LatencyMean);
            push_stat(&mut r, "latency_p50_ms", Some("ms"), Stat::LatencyP50);
            push_stat(&mut r, "latency_p95_ms", Some("ms"), Stat::LatencyP95);
            push_stat(&mut r, "tg_tps", Some("tok/s"), Stat::RateLegacy);
        }
        if self.ttfts > 0 {
            push_stat(&mut r, "ttft_ms", Some("ms"), Stat::TtftMean);
            push_stat(&mut r, "ttft_p50_ms", Some("ms"), Stat::TtftP50);
        }
        if self.rates > 0 {
            push_stat(&mut r, "tps", Some("tok/s"), Stat::RateMean);
        }
        push_stat(&mut r, "success_rate", None, Stat::SuccessRate);
        assert(r@.map_values(|x: StatRow| stat_row_view(x))
            =~= report_plan(self.latencies as nat, self.ttfts as nat, self.rates as nat));
        r
    }
}

/// A finished test always reports something, and its last row is the
/// success rate.
pub proof fn lemma_report_ends_with_success_rate(latencies: nat, ttfts: nat, rates: nat)
    ensures
        report_plan(latencies, ttfts, rates).len() >= 1,
        report_plan(latencies, ttfts, rates).last() == ("success_rate"@, None::<Seq<char>>, Stat::SuccessRate),
        report_plan(latencies, ttfts, rates).len() == 1 + (if latencies > 0 { 4nat } else { 0nat })
            + (if ttfts > 0 { 2nat } else { 0nat }) + (if rates > 0 { 1nat } else { 0nat }),
{
}

/// Each reported row carries the statistic its name stands for: the mean
/// latency under `latency_ms`, the median under `latency_p50_ms`, the 95th
/// percentile under `latency_p95_ms`, the legacy rate under `tg_tps`, the
/// mean and median time to first chunk under `ttft_ms` and `ttft_p50_ms`,
/// the mean rate under `tps` and the share answered under `success_rate`;
/// the timings are in ms, the rates in tok/s, the share has no unit.  The
/// latency rows are there exactly when a latency was measured, the first
/// chunk rows when a first chunk arrived, the rate when one was measured.
pub proof fn lemma_report_rows_match_names(latencies: nat, ttfts: nat, rates: nat)
    ensures
        forall|i: int| 0 <= i < report_plan(latencies, ttfts, rates).len() ==> {
            let (name, unit, stat) = #[trigger] report_plan(latencies, ttfts, rates)[i];
            &&& name == "latency_ms"@ ==> stat == Stat::LatencyMean && unit == Some("ms"@)
            &&& name == "latency_p50_ms"@ ==> stat == Stat::LatencyP50 && unit == Some("ms"@)
            &&& name == "latency_p95_ms"@ ==> stat == Stat::LatencyP95 && unit == Some("ms"@)
            &&& name == "tg_tps"@ ==> stat == Stat::RateLegacy && unit == Some("tok/s"@)
            &&& name == "ttft_ms"@ ==> stat == Stat::TtftMean && unit == Some("ms"@)
            &&& name == "ttft_p50_ms"@ ==> stat == Stat::TtftP50 && unit == Some("ms"@)
            &&& name == "tps"@ ==> stat == Stat::RateMean && unit == Some("tok/s"@)
            &&& name == "success_rate"@ ==> stat == Stat::SuccessRate && unit == None::<Seq<char>>
        },
        (exists|i: int| 0 <= i < report_plan(latencies, ttfts, rates).len()
            && #[trigger] report_plan(latencies, ttfts, rates)[i].0 == "latency_p95_ms"@) <==> latencies > 0,
        (exists|i: int| 0 <= i < report_plan(latencies, ttfts, rates).len()
            && #[trigger] report_plan(latencies, ttfts, rates)[i].0 == "ttft_p50_ms"@) <==> ttfts > 0,
        (exists|i: int| 0 <= i < report_plan(latencies, ttfts, rates).len()
            && #[trigger] report_plan(latencies, ttfts, rates)[i].0 == "tps"@) <==> rates > 0,
{
    reveal_strlit("latency_ms");
    reveal_strlit("latency_p50_ms");
    reveal_strlit("latency_p95_ms");
    reveal_strlit("tg_tps");
    reveal_strlit("ttft_ms");
    reveal_strlit("ttft_p50_ms");
    reveal_strlit("tps");
    reveal_strlit("success_rate");
    reveal_strlit("ms");
    reveal_strlit("tok/s");
    let p = report_plan(latencies, ttfts, rates);
    let names = seq!["latency_ms"@, "latency_p50_ms"@, "latency_p95_ms"@, "tg_tps"@, "ttft_ms"@,
        "ttft_p50_ms"@, "tps"@, "success_rate"@];
    assert("latency_p50_ms"@[9] != "latency_p95_ms"@[9]);
    assert forall|a: int, b: int| 0 <= a < 8 && 0 <= b < 8 && a != b implies #[trigger] names[a] != #[trigger] names[b] by {
        if names[a] == names[b] {
            if names[a].len() == 14 {
                assert(names[a][9] == names[b][9]);
            } else if names[a].len() == 7 {
                assert(names[a][0] == names[b][0]);
            }
        }
    }
    assert forall|i: int| 0 <= i < p.len() implies {
        let (name, unit, stat) = #[trigger] p[i];
        &&& name == "latency_ms"@ ==> stat == Stat::LatencyMean && unit == Some("ms"@)
        &&& name == "latency_p50_ms"@ ==> stat == Stat::LatencyP50 && unit == Some("ms"@)
        &&& name == "latency_p95_ms"@ ==> stat == Stat::LatencyP95 && unit == Some("ms"@)
        &&& name == "tg_tps"@ ==> stat == Stat::RateLegacy && unit == Some("tok/s"@)
        &&& name == "ttft_ms"@ ==> stat == Stat::TtftMean && unit == Some("ms"@)
        &&& name == "ttft_p50_ms"@ ==> stat == Stat::TtftP50 && unit == Some("ms"@)
        &&& name == "tps"@ ==> stat == Stat::RateMean && unit == Some("tok/s"@)
        &&& name == "success_rate"@ ==> stat == Stat::SuccessRate && unit == None::<Seq<char>>
    } by {
        let k: int = if p[i].2 == Stat::LatencyMean { 0 } else if p[i].2 == Stat::LatencyP50 { 1 }
            else if p[i].2 == Stat::LatencyP95 { 2 } else if p[i].2 == Stat::RateLegacy { 3 }
            else if p[i].2 == Stat::TtftMean { 4 } else if p[i].2 == Stat::TtftP50 { 5 }
            else if p[i].2 == Stat::RateMean { 6 } else { 7 };
        assert(p[i].0 == names[k]);
        assert(names[k] == names[0] ==> k == 0);
        assert(names[k] == names[1] ==> k == 1);
        assert(names[k] == names[2] ==> k == 2);
        assert(names[k] == names[3] ==> k == 3);
        assert(names[k] == names[4] ==> k == 4);
        assert(names[k] == names[5] ==> k == 5);
        assert(names[k] == names[6] ==> k == 6);
        assert(names[k] == names[7] ==> k == 7);
    }
    if latencies > 0 {
        assert(p[2].0 == "latency_p95_ms"@);
    }
    if ttfts > 0 {
        let j: int = if latencies > 0 { 5 } else { 1 };
        assert(p[j].0 == "ttft_p50_ms"@);
    }
    if rates > 0 {
        let j: int = (if latencies > 0 { 4int } else { 0int }) + (if ttfts > 0 { 2int } else { 0int });
        assert(p[j].0 == "tps"@);
    }
    assert forall|i: int| 0 <= i < p.len() implies (p[i].0 == "latency_p95_ms"@ ==> latencies > 0)
        && (p[i].0 == "ttft_p50_ms"@ ==> ttfts > 0) && (p[i].0 == "tps"@ ==> rates > 0) by {
        let k: int = if p[i].2 == Stat::LatencyMean { 0 } else if p[i].2 == Stat::LatencyP50 { 1 }
            else if p[i].2 == Stat::LatencyP95 { 2 } else if p[i].2 == Stat::RateLegacy { 3 }
            else if p[i].2 == Stat::TtftMean { 4 } else if p[i].2 == Stat::TtftP50 { 5 }
            else if p[i].2 == Stat::RateMean { 6 } else { 7 };
        assert(p[i].0 == names[k]);
    }
}

/// The position a percentile picks in `n` sorted values: `p` percent of the
/// way from the first to the last, rounded half up.
pub open spec fn percentile_rank(n: nat, p: nat) -> nat {
    let r = ((p * (n - 1) + 50) / 100) as nat;
    if r > n - 1 { (n - 1) as nat } else { r }
}

/// The index of the `p`-th percentile among `n` sorted values.
pub fn percentile_index(n: usize, p: u64) -> (i: usize)
    requires
        n > 0,
    ensures
        i as nat == percentile_rank(n as nat, p as nat),
        i < n,
{
    let m = (n - 1) as u128;
    let q = p as u128;
    assert(q * m <= 0xffff_ffff_ffff_ffffu128 * 0xffff_ffff_ffff_ffffu128) by (nonlinear_arith)
        requires
            q <= 0xffff_ffff_ffff_ffffu128,
            m <= 0xffff_ffff_ffff_ffffu128;
    let r = (q * m + 50) / 100;
    let last = n - 1;
    if r > last as u128 {
        last
    } else {
        r as usize
    }
}

/// The extra JSON of a speed test's rows: the model, the endpoint's name,
/// and the request counts.
pub open spec fn bench_extra_of(model: Seq<char>, endpoint: Seq<char>, iterations: nat, success: nat, failures: nat) -> Seq<char> {
    json_written(JsonView::Object(seq![
        ("endpoint"@, JsonView::Str(endpoint)),
        ("failures"@, JsonView::Number(NumberView::PosInt(failures as u64))),
        ("iterations"@, JsonView::Number(NumberView::PosInt(iterations as u64))),
        ("model"@, JsonView::Str(model)),
        ("success"@, JsonView::Number(NumberView::PosInt(success as u64))),
    ]))
}

/// Writes the extra JSON of a speed test's rows.
pub fn bench_extra(model: &str, endpoint: &str, iterations: usize, success: usize, failures: usize) -> (r: String)
    ensures
        r@ == bench_extra_of(model@, endpoint@, iterations as nat, success as nat, failures as nat),
{
    let mut m: Vec<(String, Json)> = Vec::new();
    m.push((owned("endpoint"), Json::Str(owned(endpoint))));
    m.push((owned("failures"), Json::Number(JsonNumber::PosInt(failures as u64))));
    m.push((owned("iterations"), Json::Number(JsonNumber::PosInt(iterations as u64))));
    m.push((owned("model"), Json::Str(owned(model))));
    m.push((owned("success"), Json::Number(JsonNumber::PosInt(success as u64))));
    proof {
        lemma_members_view(m@);
        assert(members_view(m@) =~= seq![
            ("endpoint"@, JsonView::Str(endpoint@)),
            ("failures"@, JsonView::Number(NumberView::PosInt(failures as u64))),
            ("iterations"@, JsonView::Number(NumberView::PosInt(iterations as u64))),
            ("model"@, JsonView::Str(model@)),
            ("success"@, JsonView::Number(NumberView::PosInt(success as u64))),
        ]);
    }
    write_json(&Json::Object(m))
}

} // verus!

//! Quality evaluations: which harness a run names, the command lines the
//! harnesses are started with, and how their output becomes metrics.

use vstd::prelude::*;

use crate::endpoint::{api_root_of, endpoint_base_root, model_name, model_name_of, text_or, text_or_else};
use crate::json::{
    as_flag, as_int, as_items, as_members, as_number, as_text, config_of, get, int_field_or,
    json_get, json_parse_result, json_written, lemma_items_view, lemma_members_view, opt_get,
    text_field_or, write_json, copy_json, copy_number, Json, JsonNumber, JsonView, NumberView,
    members_view, items_view, parse_json,
};
use crate::state::EvalEndpoint;
use crate::text::{
    chars_of, contains, contains_chars, owned, push_signed_decimal, signed_decimal, str_eq,
};

verus! {

// ---------------------------------------------------------------------------
// Harnesses
// ---------------------------------------------------------------------------

/// The tau2-bench domains.
#[derive(Debug, Clone, Copy, PartialEq, Eq, Structural)]
pub enum Tau2Domain {
    Telecom,
    Retail,
    Airline,
    Mock,
}

/// The domain's name on the tau2 command line.
pub open spec fn domain_name(d: Tau2Domain) -> Seq<char> {
    match d {
        Tau2Domain::Telecom => "telecom"@,
        Tau2Domain::Retail => "retail"@,
        Tau2Domain::Airline => "airline"@,
        Tau2Domain::Mock => "mock"@,
    }
}

impl Tau2Domain {
    /// The domain's name on the tau2 command line.
    pub fn name(&self) -> (r: &'static str)
        ensures
            r@ == domain_name(*self),
    {
        match self {
            Tau2Domain::Telecom => "telecom",
            Tau2Domain::Retail => "retail",
            Tau2Domain::Airline => "airline",
            Tau2Domain::Mock => "mock",
        }
    }
}

/// The evaluation harnesses a run can be dispatched to.
#[derive(Debug, Clone, Copy, PartialEq, Eq, Structural)]
pub enum Harness {
    MicroSwe,
    Tbench,
    DeepSwe,
    Tau2(Tau2Domain),
    LiveCodeBench,
    PerfTakehome,
    SweBench,
    Toolathlon,
    FrontierSwe,
}

/// The harness that a run's task names (osworld is not one: it is refused).
pub open spec fn harness_named(task: Seq<char>) -> Option<Harness> {
    if task == "micro_swe"@ {
        Some(Harness::MicroSwe)
    } else if task == "tbench"@ {
        Some(Harness::Tbench)
    } else if task == "deepswe"@ {
        Some(Harness::DeepSwe)
    } else if task == "tau2_telecom"@ {
        Some(Harness::Tau2(Tau2Domain::Telecom))
    } else if task == "tau2_retail"@ {
        Some(Harness::Tau2(Tau2Domain::Retail))
    } else if task == "tau2_airline"@ {
        Some(Harness::Tau2(Tau2Domain::Airline))
    } else if task == "tau2_mock"@ {
        Some(Harness::Tau2(Tau2Domain::Mock))
    } else if task == "livecodebench"@ {
        Some(Harness::LiveCodeBench)
    } else if task == "perf_takehome"@ {
        Some(Harness::PerfTakehome)
    } else if task == "swebench"@ {
        Some(Harness::SweBench)
    } else if task == "toolathlon"@ {
        Some(Harness::Toolathlon)
    } else if task == "frontierswe"@ {
        Some(Harness::FrontierSwe)
    } else {
        None
    }
}

/// The text an osworld run is refused with: it needs a VM snapshot that
/// the worker does not have.
pub open spec fn osworld_message() -> Seq<char> {
    "osworld requires VM/desktop snapshot — run via osworld-v2 docker profile (see evals/osworld-v2/README.md)"@
}

/// Where the worker sends a run's task: the harness it names, a refusal
/// for `osworld`, and `Unknown eval harness: <task>` for anything else.
pub open spec fn dispatch_of(task: Seq<char>) -> Result<Harness, Seq<char>> {
    match harness_named(task) {
        Some(h) => Ok(h),
        None => if task == "osworld"@ {
            Err(osworld_message())
        } else {
            Err("Unknown eval harness: "@ + task)
        },
    }
}

/// Picks the harness for a run's task, or the error the run fails with.
pub fn harness_for_task(task: &str) -> (r: Result<Harness, String>)
    ensures
        match r {
            Ok(h) => dispatch_of(task@) == Ok::<Harness, Seq<char>>(h),
            Err(e) => dispatch_of(task@) == Err::<Harness, Seq<char>>(e@),
        },
{
    if str_eq(task, "micro_swe") {
        Ok(Harness::MicroSwe)
    } else if str_eq(task, "tbench") {
        Ok(Harness::Tbench)
    } else if str_eq(task, "deepswe") {
        Ok(Harness::DeepSwe)
    } else if str_eq(task, "tau2_telecom") {
        Ok(Harness::Tau2(Tau2Domain::Telecom))
    } else if str_eq(task, "tau2_retail") {
        Ok(Harness::Tau2(Tau2Domain::Retail))
    } else if str_eq(task, "tau2_airline") {
        Ok(Harness::Tau2(Tau2Domain::Airline))
    } else if str_eq(task, "tau2_mock") {
        Ok(Harness::Tau2(Tau2Domain::Mock))
    } else if str_eq(task, "livecodebench") {
        Ok(Harness::LiveCodeBench)
    } else if str_eq(task, "perf_takehome") {
        Ok(Harness::PerfTakehome)
    } else if str_eq(task, "swebench") {
        Ok(Harness::SweBench)
    } else if str_eq(task, "toolathlon") {
        Ok(Harness::Toolathlon)
    } else if str_eq(task, "frontierswe") {
        Ok(Harness::FrontierSwe)
    } else if str_eq(task, "osworld") {
        Err(owned(osworld_refusal()))
    } else {
        let mut e = owned("Unknown eval harness: ");
        e.push_str(task);
        Err(e)
    }
}

/// Why OSWorld runs are refused.
pub fn osworld_refusal() -> (m: &'static str)
    ensures
        m@ == osworld_message(),
{
    "osworld requires VM/desktop snapshot — run via osworld-v2 docker profile (see evals/osworld-v2/README.md)"
}

// ---------------------------------------------------------------------------
// Programs
// ---------------------------------------------------------------------------

/// The texts of a sequence of strings.
pub open spec fn texts(v: Seq<String>) -> Seq<Seq<char>> {
    v.map_values(|s: String| s@)
}

/// The texts of a sequence of string slices.
pub open spec fn slice_texts(v: Seq<&'static str>) -> Seq<Seq<char>> {
    v.map_values(|s: &'static str| s@)
}

/// The first candidate marked present, or `fallback` when none is.
pub open spec fn first_present(candidates: Seq<Seq<char>>, present: Seq<bool>, fallback: Seq<char>) -> Seq<char>
    decreases candidates.len(),
{
    if candidates.len() == 0 || present.len() == 0 {
        fallback
    } else if present[0] {
        candidates[0]
    } else {
        first_present(candidates.drop_first(), present.drop_first(), fallback)
    }
}

/// Picks the first candidate that exists, or the bare program name.
pub fn pick_program(candidates: &Vec<&'static str>, present: &Vec<bool>, fallback: &str) -> (r: String)
    requires
        present.len() == candidates.len(),
    ensures
        r@ == first_present(slice_texts(candidates@), present@, fallback@),
{
    let ghost cs = slice_texts(candidates@);
    let mut i: usize = 0;
    assert(cs.subrange(0, cs.len() as int) == cs);
    assert(present@.subrange(0, present.len() as int) == present@);
    while i < candidates.len()
        invariant
            i <= candidates.len(),
            present.len() == candidates.len(),
            cs == slice_texts(candidates@),
            first_present(cs.subrange(i as int, cs.len() as int), present@.subrange(i as int, present.len() as int), fallback@)
                == first_present(cs, present@, fallback@),
        decreases candidates.len() - i,
    {
        let ghost c2 = cs.subrange(i as int, cs.len() as int);
        let ghost p2 = present@.subrange(i as int, present.len() as int);
        assert(c2[0] == candidates@[i as int]@);
        assert(p2[0] == present@[i as int]);
        if present[i] {
            return owned(candidates[i]);
        }
        assert(c2.drop_first() == cs.subrange(i + 1, cs.len() as int));
        assert(p2.drop_first() == present@.subrange(i + 1, present.len() as int));
        i += 1;
    }
    assert(cs.subrange(i as int, cs.len() as int).len() == 0);
    owned(fallback)
}

/// Where harbor is looked for, in order.
pub open spec fn harbor_paths() -> Seq<Seq<char>> {
    seq!["/home/quynn/.local/bin/harbor"@, "/root/.local/bin/harbor"@, "/usr/local/bin/harbor"@]
}

/// Where pier is looked for, in order.
pub open spec fn pier_paths() -> Seq<Seq<char>> {
    seq!["/home/quynn/.local/bin/pier"@, "/root/.local/bin/pier"@, "/usr/local/bin/pier"@]
}

/// The places harbor is looked for, in order.
pub fn harbor_candidates() -> (r: Vec<&'static str>)
    ensures
        slice_texts(r@) == harbor_paths(),
{
    let r = vec!["/home/quynn/.local/bin/harbor", "/root/.local/bin/harbor", "/usr/local/bin/harbor"];
    assert(slice_texts(r@) =~= harbor_paths());
    r
}

/// The places pier is looked for, in order.
pub fn pier_candidates() -> (r: Vec<&'static str>)
    ensures
        slice_texts(r@) == pier_paths(),
{
    let r = vec!["/home/quynn/.local/bin/pier", "/root/.local/bin/pier", "/usr/local/bin/pier"];
    assert(slice_texts(r@) =~= pier_paths());
    r
}

/// The harbor program: the first of `harbor_candidates` that exists
/// (`present[i]` tells whether the i-th does), else `harbor` on the path.
pub fn find_harbor(present: &Vec<bool>) -> (r: String)
    requires
        present.len() == 3,
    ensures
        r@ == first_present(harbor_paths(), present@, "harbor"@),
{
    let c = harbor_candidates();
    pick_program(&c, present, "harbor")
}

/// The pier program: the first of `pier_candidates` that exists, else
/// `pier` on the path.
pub fn find_pier(present: &Vec<bool>) -> (r: String)
    requires
        present.len() == 3,
    ensures
        r@ == first_present(pier_paths(), present@, "pier"@),
{
    let c = pier_candidates();
    pick_program(&c, present, "pier")
}

/// The tau2 command: the venv's Windows executable if it exists, else its
/// Unix one, else `uv run tau2`.  Each given path is one that exists.
pub fn tau2_command(windows_exe: Option<String>, unix_exe: Option<String>) -> (r: (String, Vec<String>))
    ensures
        match windows_exe {
            Some(w) => r.0@ == w@ && r.1@.len() == 0,
            None => match unix_exe {
                Some(u) => r.0@ == u@ && r.1@.len() == 0,
                None => r.0@ == "uv"@ && texts(r.1@) == seq!["run"@, "tau2"@],
            },
        },
{
    match windows_exe {
        Some(w) => (w, Vec::new()),
        None => match unix_exe {
            Some(u) => (u, Vec::new()),
            None => {
                let mut args: Vec<String> = Vec::new();
                push_text(&mut args, "run");
                push_text(&mut args, "tau2");
                assert(texts(args@) =~= seq!["run"@, "tau2"@]);
                (owned("uv"), args)
            },
        },
    }
}

/// The position of the newest entry: the first of those with the latest
/// modification time (`times[i]`, in nanoseconds from the epoch).
pub open spec fn is_newest(times: Seq<i128>, i: int) -> bool {
    &&& 0 <= i < times.len()
    &&& forall|j: int| 0 <= j < times.len() ==> times[j] <= times[i]
    &&& forall|j: int| 0 <= j < i ==> times[j] < times[i]
}

/// Picks the newest entry of a directory listing, as the scans for the
/// latest job directory and results file do: a later entry replaces the
/// current pick only when it is strictly newer.
pub fn newest_index(times: &Vec<i128>) -> (r: Option<usize>)
    ensures
        match r {
            Some(i) => is_newest(times@, i as int),
            None => times@.len() == 0,
        },
{
    if times.len() == 0 {
        return None;
    }
    let mut best: usize = 0;
    let mut i: usize = 1;
    while i < times.len()
        invariant
            1 <= i <= times.len(),
            best < i,
            forall|j: int| 0 <= j < i ==> times@[j] <= times@[best as int],
            forall|j: int| 0 <= j < best ==> times@[j] < times@[best as int],
        decreases times.len() - i,
    {
        if times[i] > times[best] {
            best = i;
        }
        i += 1;
    }
    Some(best)
}

// ---------------------------------------------------------------------------
// Command lines
// ---------------------------------------------------------------------------

/// Appends a copy of `s`.
pub fn push_text(v: &mut Vec<String>, s: &str)
    ensures
        texts(final(v)@) == texts(old(v)@).push(s@),
{
    let t = owned(s);
    v.push(t);
    assert(texts(v@) =~= texts(old(v)@).push(s@));
}

/// Appends a string.
pub fn push_string(v: &mut Vec<String>, s: String)
    ensures
        texts(final(v)@) == texts(old(v)@).push(s@),
{
    let ghost t = s@;
    v.push(s);
    assert(texts(v@) =~= texts(old(v)@).push(t));
}

/// `openai/<model>`, the model as LiteLLM-style drivers name it.
pub fn openai_model(endpoint: &EvalEndpoint) -> (r: String)
    ensures
        r@ == "openai/"@ + model_name_of(*endpoint),
{
    let mut r = owned("openai/");
    let m = model_name(endpoint);
    r.push_str(m.as_str());
    r
}

/// `<api root>/v1`, the base URL handed to drivers.
pub fn endpoint_v1_base(endpoint: &EvalEndpoint) -> (r: String)
    ensures
        r@ == api_root_of(endpoint.base_url@) + "/v1"@,
{
    let mut r = endpoint_base_root(endpoint);
    r.push_str("/v1");
    r
}

/// The deep-swe task from a run's parameters (`task`, by default
/// `abs-stepped-slices`).
pub fn deepswe_task(config: &Json) -> (r: String)
    ensures
        r@ == (match as_text(json_get(config@, "task"@)) {
            Some(t) => t,
            None => "abs-stepped-slices"@,
        }),
{
    text_field_or(config, "task", "abs-stepped-slices")
}

/// The terminal-bench task from a run's parameters (`task`, by default
/// `terminal-bench/break-filter-js-from-html`).
pub fn tbench_task(config: &Json) -> (r: String)
    ensures
        r@ == (match as_text(json_get(config@, "task"@)) {
            Some(t) => t,
            None => "terminal-bench/break-filter-js-from-html"@,
        }),
{
    text_field_or(config, "task", "terminal-bench/break-filter-js-from-html")
}

/// The path pier is given for a deep-swe task: the task itself when it
/// names a directory, else `tasks/<task>`.
pub fn deepswe_task_path(task: &str) -> (r: String)
    ensures
        r@ == (if contains(task@, "/"@) { task@ } else { "tasks/"@ + task@ }),
{
    let tv = chars_of(task);
    let slash = chars_of("/");
    if contains_chars(&tv, &slash) {
        owned(task)
    } else {
        let mut r = owned("tasks/");
        r.push_str(task);
        r
    }
}

/// `pier run` for a deep-swe task.
pub fn deepswe_args(task_path: &str, endpoint: &EvalEndpoint, env_file: &str, jobs_dir: &str) -> (args: Vec<String>)
    ensures
        texts(args@) == seq![
            "run"@, "-p"@, task_path@, "-a"@, "mini-swe-agent"@, "-m"@,
            "openai/"@ + model_name_of(*endpoint), "--env-file"@, env_file@, "-n"@, "1"@,
            "--jobs-dir"@, jobs_dir@,
        ],
{
    let mut a: Vec<String> = Vec::new();
    push_text(&mut a, "run");
    push_text(&mut a, "-p");
    push_text(&mut a, task_path);
    push_text(&mut a, "-a");
    push_text(&mut a, "mini-swe-agent");
    push_text(&mut a, "-m");
    push_string(&mut a, openai_model(endpoint));
    push_text(&mut a, "--env-file");
    push_text(&mut a, env_file);
    push_text(&mut a, "-n");
    push_text(&mut a, "1");
    push_text(&mut a, "--jobs-dir");
    push_text(&mut a, jobs_dir);
    a
}

/// `harbor run` for a terminal-bench task.
pub fn tbench_args(task: &str, endpoint: &EvalEndpoint, env_file: &str, jobs_dir: &str) -> (args: Vec<String>)
    ensures
        texts(args@) == seq![
            "run"@, "-d"@, "terminal-bench/terminal-bench-2"@, "-a"@, "pi"@, "-m"@,
            "openai/"@ + model_name_of(*endpoint), "--env-file"@, env_file@, "-n"@, "1"@,
            "-k"@, "1"@, "-y"@, "--jobs-dir"@, jobs_dir@, "-i"@, task@,
        ],
{
    let mut a: Vec<String> = Vec::new();
    push_text(&mut a, "run");
    push_text(&mut a, "-d");
    push_text(&mut a, "terminal-bench/terminal-bench-2");
    push_text(&mut a, "-a");
    push_text(&mut a, "pi");
    push_text(&mut a, "-m");
    push_string(&mut a, openai_model(endpoint));
    push_text(&mut a, "--env-file");
    push_text(&mut a, env_file);
    push_text(&mut a, "-n");
    push_text(&mut a, "1");
    push_text(&mut a, "-k");
    push_text(&mut a, "1");
    push_text(&mut a, "-y");
    push_text(&mut a, "--jobs-dir");
    push_text(&mut a, jobs_dir);
    push_text(&mut a, "-i");
    push_text(&mut a, task);
    a
}

/// The decimal writing of an integer parameter, or of its default.
pub fn int_setting(config: &Json, key: &str, default: i64) -> (r: String)
    ensures
        r@ == signed_decimal((match as_int(json_get(config@, key@)) {
            Some(i) => i,
            None => default,
        }) as int),
{
    let n = int_field_or(config, key, default);
    let mut r = String::new();
    push_signed_decimal(&mut r, n);
    assert(r@ =~= signed_decimal(n as int));
    r
}

/// The driver command line shared by `micro_swe_tool_eval.py` and
/// `perf_takehome_eval.py`.
pub open spec fn driver_args_of(
    script: Seq<char>,
    ep: EvalEndpoint,
    max_rounds: Seq<char>,
    max_tokens: Seq<char>,
    out_path: Seq<char>,
) -> Seq<Seq<char>> {
    seq![
        script, "--base-url"@, api_root_of(ep.base_url@) + "/v1"@, "--model"@, model_name_of(ep),
        "--max-rounds"@, max_rounds, "--max-tokens"@, max_tokens, "--no-thinking"@,
        "--api-key"@, text_or(ep.api_key, ""@), "--output"@, out_path,
    ]
}

/// The integer parameter `key` as the driver is given it.
pub open spec fn int_setting_text(config: JsonView, key: Seq<char>, default: i64) -> Seq<char> {
    signed_decimal((match as_int(json_get(config, key)) {
        Some(i) => i,
        None => default,
    }) as int)
}

/// The arguments of a Python driver script: its path, the endpoint, the
/// round and token limits and where it writes its results.
fn driver_args(
    script: &str,
    endpoint: &EvalEndpoint,
    max_rounds: String,
    max_tokens: String,
    out_path: &str,
) -> (args: Vec<String>)
    ensures
        texts(args@) == driver_args_of(script@, *endpoint, max_rounds@, max_tokens@, out_path@),
{
    let mut a: Vec<String> = Vec::new();
    push_text(&mut a, script);
    push_text(&mut a, "--base-url");
    push_string(&mut a, endpoint_v1_base(endpoint));
    push_text(&mut a, "--model");
    push_string(&mut a, model_name(endpoint));
    push_text(&mut a, "--max-rounds");
    push_string(&mut a, max_rounds);
    push_text(&mut a, "--max-tokens");
    push_string(&mut a, max_tokens);
    push_text(&mut a, "--no-thinking");
    push_text(&mut a, "--api-key");
    push_string(&mut a, text_or_else(&endpoint.api_key, ""));
    push_text(&mut a, "--output");
    push_text(&mut a, out_path);
    assert(texts(a@) =~= driver_args_of(script@, *endpoint, max_rounds@, max_tokens@, out_path@));
    a
}

/// `micro_swe_tool_eval.py`'s arguments: rounds (`max_rounds`, default 10)
/// and tokens (`max_tokens`, default 1024) from the run's parameters.
pub fn micro_swe_args(script: &str, endpoint: &EvalEndpoint, config: &Json, out_path: &str) -> (args: Vec<String>)
    ensures
        texts(args@) == driver_args_of(
            script@, *endpoint, int_setting_text(config@, "max_rounds"@, 10),
            int_setting_text(config@, "max_tokens"@, 1024), out_path@,
        ),
{
    let rounds = int_setting(config, "max_rounds", 10);
    let tokens = int_setting(config, "max_tokens", 1024);
    driver_args(script, endpoint, rounds, tokens, out_path)
}

/// `perf_takehome_eval.py`'s arguments: rounds (`max_rounds`, default 12)
/// and tokens (`max_tokens`, default 4096) from the run's parameters.
pub fn perf_takehome_args(script: &str, endpoint: &EvalEndpoint, config: &Json, out_path: &str) -> (args: Vec<String>)
    ensures
        texts(args@) == driver_args_of(
            script@, *endpoint, int_setting_text(config@, "max_rounds"@, 12),
            int_setting_text(config@, "max_tokens"@, 4096), out_path@,
        ),
{
    let rounds = int_setting(config, "max_rounds", 12);
    let tokens = int_setting(config, "max_tokens", 4096);
    driver_args(script, endpoint, rounds, tokens, out_path)
}

/// The file a driver writes its results to: `results/run-<id>.json`.
pub fn driver_results_name(run_id: i64) -> (r: String)
    ensures
        r@ == "results/run-"@ + signed_decimal(run_id as int) + ".json"@,
{
    let mut r = owned("results/run-");
    push_signed_decimal(&mut r, run_id);
    r.push_str(".json");
    r
}

} // verus!

verus! {

// ---------------------------------------------------------------------------
// Metrics
// ---------------------------------------------------------------------------

/// The value of a metric as a harness reports it: a number read from its
/// JSON, a ratio of counts (a pass rate, 1/1 for a pass, 0/1 for
/// nothing), or the mean of the rows that follow it.
#[derive(Debug)]
pub enum MetricValue {
    Number(JsonNumber),
    Ratio(u64, u64),
    /// the mean of the values of the next `n` rows of the same list
    MeanOfNext(u64),
}

/// The mathematical value of a metric's value.
pub enum MetricValueView {
    Number(NumberView),
    Ratio(u64, u64),
    MeanOfNext(u64),
}

/// One result row of a run: metric name, value, unit and extra JSON text.
#[derive(Debug)]
pub struct Metric {
    pub metric: String,
    pub value: MetricValue,
    pub unit: Option<String>,
    pub extra: Option<String>,
}

/// The mathematical value of a result row.
pub struct MetricView {
    pub metric: Seq<char>,
    pub value: MetricValueView,
    pub unit: Option<Seq<char>>,
    pub extra: Option<Seq<char>>,
}

/// The text of an optional string.
pub open spec fn opt_text(s: Option<String>) -> Option<Seq<char>> {
    match s {
        Some(t) => Some(t@),
        None => None,
    }
}

impl View for MetricValue {
    type V = MetricValueView;

    open spec fn view(&self) -> MetricValueView {
        match *self {
            MetricValue::Number(n) => MetricValueView::Number(n@),
            MetricValue::Ratio(a, b) => MetricValueView::Ratio(a, b),
            MetricValue::MeanOfNext(n) => MetricValueView::MeanOfNext(n),
        }
    }
}

impl View for Metric {
    type V = MetricView;

    open spec fn view(&self) -> MetricView {
        MetricView {
            metric: self.metric@,
            value: self.value@,
            unit: opt_text(self.unit),
            extra: opt_text(self.extra),
        }
    }
}

/// The rows of a result list.
pub open spec fn rows(v: Seq<Metric>) -> Seq<MetricView> {
    v.map_values(|m: Metric| m@)
}

/// A result row.
pub open spec fn row(metric: Seq<char>, value: MetricValueView, unit: Option<Seq<char>>, extra: Option<Seq<char>>) -> MetricView {
    MetricView { metric, value, unit, extra }
}

/// The rows `f` gives for each element of `s`, one after the other.
pub open spec fn rows_for<A>(s: Seq<A>, f: spec_fn(A) -> Seq<MetricView>) -> Seq<MetricView>
    decreases s.len(),
{
    if s.len() == 0 {
        Seq::empty()
    } else {
        rows_for(s.drop_last(), f) + f(s.last())
    }
}

/// One more element adds its rows at the end.
pub proof fn lemma_rows_for_step<A>(s: Seq<A>, f: spec_fn(A) -> Seq<MetricView>, i: int)
    requires
        0 <= i < s.len(),
    ensures
        rows_for(s.take(i + 1), f) == rows_for(s.take(i), f) + f(s[i]),
{
    assert(s.take(i + 1).drop_last() == s.take(i));
    assert(s.take(i + 1).last() == s[i]);
}

/// All elements.
pub proof fn lemma_rows_for_all<A>(s: Seq<A>, f: spec_fn(A) -> Seq<MetricView>)
    ensures
        rows_for(s.take(s.len() as int), f) == rows_for(s, f),
{
    assert(s.take(s.len() as int) == s);
}

/// Appends a row.
pub fn push_row(out: &mut Vec<Metric>, m: Metric)
    ensures
        rows(final(out)@) == rows(old(out)@).push(m@),
{
    let ghost v = m@;
    out.push(m);
    assert(rows(out@) =~= rows(old(out)@).push(v));
}

/// The `extra` text naming a task: `{"task":"<task>"}` (the task is not
/// escaped).
pub open spec fn task_extra_of(task: Seq<char>) -> Seq<char> {
    "{\"task\":\""@ + task + "\"}"@
}

/// Writes `{"task":"<task>"}`.
pub fn task_extra(task: &str) -> (r: String)
    ensures
        r@ == task_extra_of(task@),
{
    let mut r = owned("{\"task\":\"");
    r.push_str(task);
    r.push_str("\"}");
    r
}

/// The keys of a deep-swe metric entry that become results, in order.
pub open spec fn deepswe_keys() -> Seq<Seq<char>> {
    seq!["partial"@, "reward"@, "f2p"@, "p2p"@]
}

/// The rows of one deep-swe metric entry: `deepswe_<key>` for each key it
/// holds a number under.
pub open spec fn deepswe_entry_rows(m: JsonView, extra: Seq<char>) -> spec_fn(Seq<char>) -> Seq<MetricView> {
    |k: Seq<char>| match as_number(json_get(m, k)) {
        Some(n) => seq![row("deepswe_"@ + k, MetricValueView::Number(n), Some("score"@), Some(extra))],
        None => Seq::empty(),
    }
}

/// The rows of the `metrics` array of an eval entry, given the rows of one
/// metric entry.
pub open spec fn eval_rows(per_metric: spec_fn(JsonView) -> Seq<MetricView>) -> spec_fn((Seq<char>, JsonView)) -> Seq<MetricView> {
    |e: (Seq<char>, JsonView)| match as_items(json_get(e.1, "metrics"@)) {
        Some(ms) => rows_for(ms, per_metric),
        None => Seq::empty(),
    }
}

/// The rows of a harbor/pier `result.json`: each entry of each `metrics`
/// array of each member of `stats.evals`, in order.
pub open spec fn job_rows(doc: JsonView, per_metric: spec_fn(JsonView) -> Seq<MetricView>) -> Seq<MetricView> {
    match as_members(opt_get(json_get(doc, "stats"@), "evals"@)) {
        Some(evals) => rows_for(evals, eval_rows(per_metric)),
        None => Seq::empty(),
    }
}

/// The row of one terminal-bench metric entry: `tbench_reward` from its
/// `mean`.
pub open spec fn tbench_entry_rows(extra: Seq<char>) -> spec_fn(JsonView) -> Seq<MetricView> {
    |m: JsonView| match as_number(json_get(m, "mean"@)) {
        Some(n) => seq![row("tbench_reward"@, MetricValueView::Number(n), Some("reward"@), Some(extra))],
        None => Seq::empty(),
    }
}

/// Which harbor/pier result a run reads.
pub enum JobKind {
    DeepSwe,
    Tbench,
}

/// The rows of one metric entry of a job result.
pub open spec fn job_entry_rows(kind: JobKind, m: JsonView, task: Seq<char>) -> Seq<MetricView> {
    match kind {
        JobKind::DeepSwe => rows_for(deepswe_keys(), deepswe_entry_rows(m, task_extra_of(task))),
        JobKind::Tbench => tbench_entry_rows(task_extra_of(task))(m),
    }
}

/// The row a deep-swe metric entry gives for `key`, when it holds a number
/// under it.
pub open spec fn deepswe_key_row(m: JsonView, key: Seq<char>, task: Seq<char>) -> Seq<MetricView> {
    match json_get(m, key) {
        Some(JsonView::Number(n)) => seq![MetricView {
            metric: "deepswe_"@ + key,
            value: MetricValueView::Number(n),
            unit: Some("score"@),
            extra: Some("{\"task\":\""@ + task + "\"}"@),
        }],
        _ => Seq::empty(),
    }
}

/// A deep-swe metric entry reports, in this order, `deepswe_partial`,
/// `deepswe_reward`, `deepswe_f2p` and `deepswe_p2p`, each with the number
/// the entry holds under `partial`, `reward`, `f2p` and `p2p` and left out
/// when it holds none, in the unit `score` and with the task as extra
/// JSON.  A terminal-bench entry reports `tbench_reward` with its `mean`
/// number, in the unit `reward`, or nothing without one.
pub proof fn lemma_job_entry_rows(m: JsonView, task: Seq<char>)
    ensures
        job_entry_rows(JobKind::DeepSwe, m, task)
            == deepswe_key_row(m, "partial"@, task) + deepswe_key_row(m, "reward"@, task)
                + deepswe_key_row(m, "f2p"@, task) + deepswe_key_row(m, "p2p"@, task),
        job_entry_rows(JobKind::Tbench, m, task) == (match json_get(m, "mean"@) {
            Some(JsonView::Number(n)) => seq![MetricView {
                metric: "tbench_reward"@,
                value: MetricValueView::Number(n),
                unit: Some("reward"@),
                extra: Some("{\"task\":\""@ + task + "\"}"@),
            }],
            _ => Seq::<MetricView>::empty(),
        }),
{
    let keys = deepswe_keys();
    let f = deepswe_entry_rows(m, task_extra_of(task));
    assert(keys.len() == 4);
    assert forall|k: Seq<char>| #[trigger] f(k) == deepswe_key_row(m, k, task) by {}
    lemma_rows_for_step(keys, f, 0);
    lemma_rows_for_step(keys, f, 1);
    lemma_rows_for_step(keys, f, 2);
    lemma_rows_for_step(keys, f, 3);
    lemma_rows_for_all(keys, f);
    assert(keys.take(0) == Seq::<Seq<char>>::empty());
    assert(rows_for(keys.take(0), f) == Seq::<MetricView>::empty());
    assert(keys[0] == "partial"@ && keys[1] == "reward"@ && keys[2] == "f2p"@ && keys[3] == "p2p"@);
    assert(Seq::<MetricView>::empty() + f(keys[0]) == f(keys[0]));
}

/// Adds the rows of one metric entry.
fn push_entry_rows(out: &mut Vec<Metric>, kind: &JobKind, m: &Json, task: &str)
    ensures
        rows(final(out)@) == rows(old(out)@) + job_entry_rows(*kind, m@, task@),
{
    match kind {
        JobKind::Tbench => {
            match get(m, "mean") {
                Some(Json::Number(n)) => {
                    push_row(out, Metric {
                        metric: owned("tbench_reward"),
                        value: MetricValue::Number(copy_number(n)),
                        unit: Some(owned("reward")),
                        extra: Some(task_extra(task)),
                    });
                },
                _ => {
                    assert(rows(out@) =~= rows(old(out)@) + Seq::<MetricView>::empty());
                },
            }
        },
        JobKind::DeepSwe => {
            let keys: Vec<&'static str> = vec!["partial", "reward", "f2p", "p2p"];
            assert(slice_texts(keys@) =~= deepswe_keys());
            let ghost f = deepswe_entry_rows(m@, task_extra_of(task@));
            let ghost start = rows(out@);
            let mut i: usize = 0;
            assert(rows(out@) =~= start + rows_for(deepswe_keys().take(0), f));
            while i < keys.len()
                invariant
                    i <= keys.len(),
                    slice_texts(keys@) == deepswe_keys(),
                    f == deepswe_entry_rows(m@, task_extra_of(task@)),
                    rows(out@) == start + rows_for(deepswe_keys().take(i as int), f),
                decreases keys.len() - i,
            {
                let key = keys[i];
                assert(deepswe_keys()[i as int] == key@);
                proof { lemma_rows_for_step(deepswe_keys(), f, i as int); }
                match get(m, key) {
                    Some(Json::Number(n)) => {
                        let mut name = owned("deepswe_");
                        name.push_str(key);
                        push_row(out, Metric {
                            metric: name,
                            value: MetricValue::Number(copy_number(n)),
                            unit: Some(owned("score")),
                            extra: Some(task_extra(task)),
                        });
                        assert(rows(out@) =~= start + rows_for(deepswe_keys().take(i + 1), f));
                    },
                    _ => {
                        assert(rows(out@) =~= start + rows_for(deepswe_keys().take(i + 1), f));
                    },
                }
                i += 1;
            }
            proof { lemma_rows_for_all(deepswe_keys(), f); }
        },
    }
}

/// The rows of a job result document.
pub open spec fn job_doc_rows(kind: JobKind, doc: JsonView, task: Seq<char>) -> Seq<MetricView> {
    job_rows(doc, |m: JsonView| job_entry_rows(kind, m, task))
}

/// Collects the rows of a harbor/pier `result.json` document.
pub fn job_metrics(kind: &JobKind, doc: &Json, task: &str) -> (r: Vec<Metric>)
    ensures
        rows(r@) == job_doc_rows(*kind, doc@, task@),
{
    let ghost per_metric = |m: JsonView| job_entry_rows(*kind, m, task@);
    let ghost per_eval = eval_rows(per_metric);
    let mut out: Vec<Metric> = Vec::new();
    let stats = get(doc, "stats");
    let evals = match stats {
        Some(s) => get(s, "evals"),
        None => None,
    };
    match evals {
        Some(Json::Object(members)) => {
            let ghost ev = members_view(members@);
            proof { lemma_members_view(members@); }
            let mut i: usize = 0;
            assert(rows(out@) =~= rows_for(ev.take(0), per_eval));
            while i < members.len()
                invariant
                    i <= members.len(),
                    ev == members_view(members@),
                    ev.len() == members.len(),
                    forall|k: int| 0 <= k < members.len() ==> #[trigger] ev[k] == (members@[k].0@, members@[k].1@),
                    per_eval == eval_rows(per_metric),
                    per_metric == (|m: JsonView| job_entry_rows(*kind, m, task@)),
                    rows(out@) == rows_for(ev.take(i as int), per_eval),
                decreases members.len() - i,
            {
                proof { lemma_rows_for_step(ev, per_eval, i as int); }
                let ghost before = rows(out@);
                let eval = &members[i].1;
                match get(eval, "metrics") {
                    Some(Json::Array(ms)) => {
                        let ghost mv = items_view(ms@);
                        proof { lemma_items_view(ms@); }
                        let mut j: usize = 0;
                        assert(rows(out@) =~= before + rows_for(mv.take(0), per_metric));
                        while j < ms.len()
                            invariant
                                j <= ms.len(),
                                mv == items_view(ms@),
                                mv.len() == ms.len(),
                                forall|k: int| 0 <= k < ms.len() ==> #[trigger] mv[k] == ms@[k]@,
                                per_metric == (|m: JsonView| job_entry_rows(*kind, m, task@)),
                                rows(out@) == before + rows_for(mv.take(j as int), per_metric),
                            decreases ms.len() - j,
                        {
                            proof { lemma_rows_for_step(mv, per_metric, j as int); }
                            push_entry_rows(&mut out, kind, &ms[j], task);
                            assert(rows(out@) =~= before + rows_for(mv.take(j + 1), per_metric));
                            j += 1;
                        }
                        proof { lemma_rows_for_all(mv, per_metric); }
                    },
                    _ => {
                        assert(rows(out@) =~= before + Seq::<MetricView>::empty());
                    },
                }
                assert(rows(out@) =~= rows_for(ev.take(i + 1), per_eval));
                i += 1;
            }
            proof { lemma_rows_for_all(ev, per_eval); }
        },
        _ => {},
    }
    out
}

/// The outcome of reading a job's `result.json` text: the parse error's
/// text, `no <what> metrics in <path>` when it reports nothing, else its
/// rows.
pub open spec fn job_outcome(kind: JobKind, text: Seq<char>, task: Seq<char>, path: Seq<char>) -> Result<Seq<MetricView>, Seq<char>> {
    match json_parse_result(text) {
        Err(e) => Err(e),
        Ok(doc) => {
            let r = job_doc_rows(kind, doc, task);
            if r.len() == 0 {
                Err(match kind {
                    JobKind::DeepSwe => "no deepswe metrics in "@,
                    JobKind::Tbench => "no tbench metrics in "@,
                } + path)
            } else {
                Ok(r)
            }
        },
    }
}

/// Reads the result of a deep-swe (pier) or terminal-bench (harbor) job.
pub fn job_results(kind: &JobKind, text: &str, task: &str, path: &str) -> (r: Result<Vec<Metric>, String>)
    ensures
        match r {
            Ok(v) => job_outcome(*kind, text@, task@, path@) == Ok::<Seq<MetricView>, Seq<char>>(rows(v@)),
            Err(e) => job_outcome(*kind, text@, task@, path@) == Err::<Seq<MetricView>, Seq<char>>(e@),
        },
{
    match parse_json(text) {
        Err(e) => Err(e),
        Ok(doc) => {
            let v = job_metrics(kind, &doc, task);
            if v.len() == 0 {
                let mut e = match kind {
                    JobKind::DeepSwe => owned("no deepswe metrics in "),
                    JobKind::Tbench => owned("no tbench metrics in "),
                };
                e.push_str(path);
                Err(e)
            } else {
                Ok(v)
            }
        },
    }
}

} // verus!

verus! {

// ---------------------------------------------------------------------------
// tau2-bench
// ---------------------------------------------------------------------------

/// The row of one tau2 simulation that ended normally (`success` or
/// `max_steps_reached`): `tau2@<task_id>` (`?` without one) with its reward
/// (0 without one).
pub open spec fn tau2_simulation_row() -> spec_fn(JsonView) -> Seq<MetricView> {
    |s: JsonView| {
        let task = match as_text(json_get(s, "task_id"@)) {
            Some(t) => t,
            None => "?"@,
        };
        let value = match as_number(json_get(s, "reward"@)) {
            Some(n) => MetricValueView::Number(n),
            None => MetricValueView::Ratio(0, 1),
        };
        let reason = match as_text(json_get(s, "termination_reason"@)) {
            Some(t) => t,
            None => ""@,
        };
        if reason == "success"@ || reason == "max_steps_reached"@ {
            seq![row("tau2@"@ + task, value, Some("reward"@), None)]
        } else {
            Seq::empty()
        }
    }
}

/// The rows of a tau2 `results.json` text: one per finished simulation of
/// its `simulations` array; none when it does not parse or has none.
pub open spec fn tau2_simulation_rows(text: Seq<char>) -> Seq<MetricView> {
    match json_parse_result(text) {
        Ok(doc) => tau2_doc_rows(doc),
        Err(_) => Seq::empty(),
    }
}

/// The rows of a tau2 results document: one per finished simulation of its
/// `simulations` array.
pub open spec fn tau2_doc_rows(doc: JsonView) -> Seq<MetricView> {
    match as_items(json_get(doc, "simulations"@)) {
        Some(sims) => rows_for(sims, tau2_simulation_row()),
        None => Seq::empty(),
    }
}

/// The summary row put before `n` reward rows: their mean, with the count
/// as extra JSON `{"tasks":<n>}`.
pub open spec fn tau2_average_row(n: nat) -> MetricView {
    row("tau2_avg_reward"@, MetricValueView::MeanOfNext(n as u64), Some("reward"@),
        Some("{\"tasks\":"@ + crate::text::decimal(n) + "}"@))
}

/// What a tau2 run reports from its `results.json` text: nothing when no
/// simulation finished normally (the run then reads its printed rewards),
/// else the summary row followed by one row per such simulation.
pub open spec fn tau2_results_of(text: Seq<char>) -> Option<Seq<MetricView>> {
    let r = tau2_simulation_rows(text);
    if r.len() == 0 {
        None
    } else {
        Some(seq![tau2_average_row(r.len())] + r)
    }
}

/// The summary row for `n` reward rows.
pub fn tau2_average(n: u64) -> (r: Metric)
    ensures
        r@ == tau2_average_row(n as nat),
{
    Metric {
        metric: owned("tau2_avg_reward"),
        value: MetricValue::MeanOfNext(n),
        unit: Some(owned("reward")),
        extra: Some(tasks_extra(n)),
    }
}

/// Reads a tau2 `results.json` text into the rows a run reports.
pub fn tau2_simulation_results(text: &str) -> (r: Option<Vec<Metric>>)
    ensures
        match r {
            Some(v) => tau2_results_of(text@) == Some(rows(v@)),
            None => tau2_results_of(text@) is None,
        },
{
    let sims = tau2_simulation_metrics(text);
    if sims.len() == 0 {
        return None;
    }
    let mut out: Vec<Metric> = Vec::new();
    push_row(&mut out, tau2_average(sims.len() as u64));
    let mut i: usize = 0;
    let ghost first = rows(out@);
    assert(rows(sims@).take(0) =~= Seq::<MetricView>::empty());
    assert(rows(out@) =~= first + rows(sims@).take(0));
    while i < sims.len()
        invariant
            i <= sims.len(),
            rows(out@) == first + rows(sims@).take(i as int),
        decreases sims.len() - i,
    {
        let m = copy_metric(&sims[i]);
        push_row(&mut out, m);
        assert(rows(out@) =~= first + rows(sims@).take(i + 1));
        i += 1;
    }
    assert(rows(sims@).take(sims.len() as int) =~= rows(sims@));
    Some(out)
}

/// A tau2 simulation is reported exactly when its `termination_reason` is
/// `success` or `max_steps_reached`: as `tau2@<task_id>` (`?` without an
/// id) with its `reward` number (0 without one), in the unit `reward`; a
/// simulation that ended otherwise gives no row.
pub proof fn lemma_tau2_simulation_row(sim: JsonView)
    ensures
        json_get(sim, "termination_reason"@) == Some(JsonView::Str("success"@))
            || json_get(sim, "termination_reason"@) == Some(JsonView::Str("max_steps_reached"@))
        ==> tau2_simulation_row()(sim) == seq![MetricView {
            metric: "tau2@"@ + (match json_get(sim, "task_id"@) {
                Some(JsonView::Str(t)) => t,
                _ => "?"@,
            }),
            value: (match json_get(sim, "reward"@) {
                Some(JsonView::Number(n)) => MetricValueView::Number(n),
                _ => MetricValueView::Ratio(0, 1),
            }),
            unit: Some("reward"@),
            extra: None,
        }],
        !(json_get(sim, "termination_reason"@) == Some(JsonView::Str("success"@))
            || json_get(sim, "termination_reason"@) == Some(JsonView::Str("max_steps_reached"@)))
        ==> tau2_simulation_row()(sim).len() == 0,
{
    reveal_strlit("success");
    reveal_strlit("max_steps_reached");
    reveal_strlit("");
    assert(""@.len() == 0 && "success"@.len() == 7 && "max_steps_reached"@.len() == 17);
    let f = tau2_simulation_row();
    let reason = match as_text(json_get(sim, "termination_reason"@)) {
        Some(t) => t,
        None => ""@,
    };
    if !(reason == "success"@ || reason == "max_steps_reached"@) {
        assert(f(sim) == Seq::<MetricView>::empty());
    }
}

/// The row of one simulation.
fn push_simulation_row(out: &mut Vec<Metric>, s: &Json)
    ensures
        rows(final(out)@) == rows(old(out)@) + tau2_simulation_row()(s@),
{
    let task = text_field_or(s, "task_id", "?");
    let value = match get(s, "reward") {
        Some(Json::Number(n)) => MetricValue::Number(copy_number(n)),
        _ => MetricValue::Ratio(0, 1),
    };
    let reason = text_field_or(s, "termination_reason", "");
    if str_eq(reason.as_str(), "success") || str_eq(reason.as_str(), "max_steps_reached") {
        let mut name = owned("tau2@");
        name.push_str(task.as_str());
        push_row(out, Metric { metric: name, value, unit: Some(owned("reward")), extra: None });
    } else {
        assert(rows(out@) =~= rows(old(out)@) + Seq::<MetricView>::empty());
    }
}

/// Reads the per-task rewards of a tau2 `results.json` text.
pub fn tau2_simulation_metrics(text: &str) -> (r: Vec<Metric>)
    ensures
        rows(r@) == tau2_simulation_rows(text@),
{
    match parse_json(text) {
        Ok(doc) => tau2_doc_metrics(&doc),
        Err(_) => Vec::new(),
    }
}

/// Reads the per-task rewards of a tau2 results document.
pub fn tau2_doc_metrics(doc: &Json) -> (r: Vec<Metric>)
    ensures
        rows(r@) == tau2_doc_rows(doc@),
{
    let mut out: Vec<Metric> = Vec::new();
    let ghost f = tau2_simulation_row();
    match get(doc, "simulations") {
        Some(Json::Array(sims)) => {
            let ghost sv = items_view(sims@);
            proof { lemma_items_view(sims@); }
            let mut i: usize = 0;
            assert(rows(out@) =~= rows_for(sv.take(0), f));
            while i < sims.len()
                invariant
                    i <= sims.len(),
                    sv == items_view(sims@),
                    sv.len() == sims.len(),
                    forall|k: int| 0 <= k < sims.len() ==> #[trigger] sv[k] == sims@[k]@,
                    f == tau2_simulation_row(),
                    rows(out@) == rows_for(sv.take(i as int), f),
                decreases sims.len() - i,
            {
                proof { lemma_rows_for_step(sv, f, i as int); }
                push_simulation_row(&mut out, &sims[i]);
                i += 1;
            }
            proof { lemma_rows_for_all(sv, f); }
        },
        _ => {},
    }
    out
}

/// The `extra` text of a tau2 average: `{"tasks":<n>}`.
pub fn tasks_extra(n: u64) -> (r: String)
    ensures
        r@ == "{\"tasks\":"@ + crate::text::decimal(n as nat) + "}"@,
{
    let mut r = owned("{\"tasks\":");
    crate::text::push_decimal(&mut r, n);
    r.push_str("}");
    r
}

/// The task and reward text of a `REWARD <task> <reward>` line of tau2's
/// output: what follows the prefix, split at its first space.
pub open spec fn reward_line_parts(line: Seq<char>) -> Option<(Seq<char>, Seq<char>)> {
    match crate::text::strip_prefix(line, "REWARD "@) {
        Some(payload) => crate::text::split_once_char(payload, ' '),
        None => None,
    }
}

/// Splits one line of tau2 output into task and reward text.
pub fn reward_line(line: &str) -> (r: Option<(String, String)>)
    ensures
        match r {
            Some((t, v)) => reward_line_parts(line@) == Some((t@, v@)),
            None => reward_line_parts(line@) is None,
        },
{
    let v = chars_of(line);
    let pre = chars_of("REWARD ");
    if !crate::text::starts_with(&v, &pre) {
        return None;
    }
    let lo = pre.len();
    let ghost payload = v@.subrange(lo as int, v.len() as int);
    match crate::text::find_char_range(&v, ' ', lo, v.len()) {
        Some(sp) => {
            proof {
                crate::text::lemma_find_char_some(payload, ' ');
                let i = sp - lo;
                assert(payload.subrange(0, i) == v@.subrange(lo as int, sp as int));
                assert(payload.subrange(i + 1, payload.len() as int) == v@.subrange(sp + 1, v.len() as int));
            }
            Some((crate::text::string_of(&v, lo, sp), crate::text::string_of(&v, sp + 1, v.len())))
        },
        None => None,
    }
}

/// The error of a tau2 run whose output holds no reward: the message and
/// the first 25 lines of output.
pub fn tau2_no_rewards(output: &str) -> (r: String)
    ensures
        r@ == "no tau2 rewards parsed from output:\n"@ + crate::text::head_lines(output@, 25),
{
    let mut r = owned("no tau2 rewards parsed from output:\n");
    let head = crate::text::first_lines(output, 25);
    r.push_str(head.as_str());
    r
}

/// The arguments after the tau2 program for a run in `domain`.
pub open spec fn tau2_args_of(
    base: Seq<Seq<char>>,
    domain: Tau2Domain,
    ep: EvalEndpoint,
    llm_args: Seq<char>,
    tasks: Seq<char>,
    trials: Seq<char>,
) -> Seq<Seq<char>> {
    base + seq![
        "run"@, "--domain"@, domain_name(domain), "--agent-llm"@, "openai/"@ + model_name_of(ep),
        "--user-llm"@, "openai/"@ + model_name_of(ep), "--agent-llm-args"@, llm_args,
        "--user-llm-args"@, llm_args, "--num-tasks"@, tasks, "--num-trials"@, trials,
    ]
}

/// The LLM settings tau2 is given: `{"api_base": <root>/v1, "api_key": <key
/// or none>}` written as JSON.
pub open spec fn tau2_llm_args_of(ep: EvalEndpoint) -> Seq<char> {
    crate::json::json_written(JsonView::Object(seq![
        ("api_base"@, JsonView::Str(api_root_of(ep.base_url@) + "/v1"@)),
        ("api_key"@, JsonView::Str(text_or(ep.api_key, "none"@))),
    ]))
}

/// tau2 is handed the endpoint's key: the `api_key` member of its LLM
/// settings is the endpoint's key when it has one, and `none` only when it
/// has none; `api_base` is the endpoint's API root followed by `/v1`.
pub proof fn lemma_tau2_llm_args_carry_key(ep: EvalEndpoint)
    ensures
        ep.api_key matches Some(k) ==> tau2_llm_args_of(ep) == json_written(JsonView::Object(seq![
            ("api_base"@, JsonView::Str(api_root_of(ep.base_url@) + "/v1"@)),
            ("api_key"@, JsonView::Str(k@)),
        ])),
        ep.api_key is None ==> tau2_llm_args_of(ep) == json_written(JsonView::Object(seq![
            ("api_base"@, JsonView::Str(api_root_of(ep.base_url@) + "/v1"@)),
            ("api_key"@, JsonView::Str("none"@)),
        ])),
{
}

/// Writes tau2's LLM settings.
pub fn tau2_llm_args(endpoint: &EvalEndpoint) -> (r: String)
    ensures
        r@ == tau2_llm_args_of(*endpoint),
        endpoint.api_key matches Some(k) ==> r@ == json_written(JsonView::Object(seq![
            ("api_base"@, JsonView::Str(api_root_of(endpoint.base_url@) + "/v1"@)),
            ("api_key"@, JsonView::Str(k@)),
        ])),
{
    let mut members: Vec<(String, Json)> = Vec::new();
    members.push((owned("api_base"), Json::Str(endpoint_v1_base(endpoint))));
    members.push((owned("api_key"), Json::Str(text_or_else(&endpoint.api_key, "none"))));
    let doc = Json::Object(members);
    proof {
        lemma_members_view(members@);
        assert(members_view(members@) =~= seq![
            ("api_base"@, JsonView::Str(api_root_of(endpoint.base_url@) + "/v1"@)),
            ("api_key"@, JsonView::Str(text_or(endpoint.api_key, "none"@))),
        ]);
    }
    write_json(&doc)
}

/// The tau2 command line after the program: the base arguments (`run tau2`
/// under uv), then the domain, models, LLM settings and the task and trial
/// counts (`num_tasks`, default 5; `num_trials`, default 1).
pub fn tau2_args(base: Vec<String>, domain: Tau2Domain, endpoint: &EvalEndpoint, config: &Json) -> (args: Vec<String>)
    ensures
        texts(args@) == tau2_args_of(
            texts(base@), domain, *endpoint, tau2_llm_args_of(*endpoint),
            int_setting_text(config@, "num_tasks"@, 5), int_setting_text(config@, "num_trials"@, 1),
        ),
{
    let tasks = int_setting(config, "num_tasks", 5);
    let trials = int_setting(config, "num_trials", 1);
    let llm = tau2_llm_args(endpoint);
    let mut a = base;
    let ghost b = texts(a@);
    push_text(&mut a, "run");
    push_text(&mut a, "--domain");
    push_text(&mut a, domain.name());
    push_text(&mut a, "--agent-llm");
    push_string(&mut a, openai_model(endpoint));
    push_text(&mut a, "--user-llm");
    push_string(&mut a, openai_model(endpoint));
    push_text(&mut a, "--agent-llm-args");
    push_text(&mut a, llm.as_str());
    push_text(&mut a, "--user-llm-args");
    push_text(&mut a, llm.as_str());
    push_text(&mut a, "--num-tasks");
    push_string(&mut a, tasks);
    push_text(&mut a, "--num-trials");
    push_string(&mut a, trials);
    assert(texts(a@) =~= tau2_args_of(b, domain, *endpoint, llm@, int_setting_text(config@, "num_tasks"@, 5), int_setting_text(config@, "num_trials"@, 1)));
    a
}

// ---------------------------------------------------------------------------
// perf-takehome
// ---------------------------------------------------------------------------

/// A number member, or zero (`get(key).and_then(as_f64).unwrap_or(0.0)`).
pub open spec fn number_or_zero(j: Option<JsonView>) -> MetricValueView {
    match as_number(j) {
        Some(n) => MetricValueView::Number(n),
        None => MetricValueView::Ratio(0, 1),
    }
}

/// A member as `json!` writes an `Option<&Value>`: the value, or `null`.
pub open spec fn or_null(j: Option<JsonView>) -> JsonView {
    match j {
        Some(v) => v,
        None => JsonView::Null,
    }
}

/// The rows of a perf-takehome `scoring` object.  A result counts only when
/// it is correct and left the tests untouched; otherwise its speedup and
/// thresholds read 0.  Every row carries the same extra JSON.
pub open spec fn perf_rows(scoring: JsonView) -> Seq<MetricView> {
    let correct = as_flag(json_get(scoring, "correct"@)) == Some(true);
    let untouched = as_flag(json_get(scoring, "tests_untouched"@)) == Some(true);
    let valid = correct && untouched;
    let beaten: nat = match as_items(json_get(scoring, "thresholds_beaten"@)) {
        Some(a) => a.len(),
        None => 0,
    };
    let extra = json_written(JsonView::Object(seq![
        ("correct"@, JsonView::Bool(correct)),
        ("cycles"@, or_null(json_get(scoring, "cycles"@))),
        ("tests_untouched"@, JsonView::Bool(untouched)),
        ("thresholds_beaten"@, or_null(json_get(scoring, "thresholds_beaten"@))),
    ]));
    seq![
        row("perf_speedup"@, if valid { number_or_zero(json_get(scoring, "speedup"@)) } else { MetricValueView::Ratio(0, 1) }, Some("x"@), Some(extra)),
        row("perf_cycles"@, number_or_zero(json_get(scoring, "cycles"@)), Some("cycles"@), Some(extra)),
        row("perf_thresholds"@, if valid { MetricValueView::Ratio(beaten as u64, 1) } else { MetricValueView::Ratio(0, 1) }, Some("count"@), Some(extra)),
    ]
}

/// The outcome of reading perf-takehome's output.
pub open spec fn perf_outcome(text: Seq<char>) -> Result<Seq<MetricView>, Seq<char>> {
    match json_parse_result(text) {
        Err(e) => Err("bad perf_takehome JSON: "@ + e),
        Ok(doc) => perf_doc_outcome(doc),
    }
}

/// The outcome of perf-takehome's results document: the rows of its
/// `scoring` object, or the error when it has none.
pub open spec fn perf_doc_outcome(doc: JsonView) -> Result<Seq<MetricView>, Seq<char>> {
    match json_get(doc, "scoring"@) {
        None => Err("no scoring in perf_takehome output"@),
        Some(s) => Ok(perf_rows(s)),
    }
}

/// A perf-takehome result is scored only when it is correct and left the
/// tests untouched: otherwise its speedup and thresholds rows read 0,
/// whatever it claims.  A valid result reports its `speedup` number (0
/// without one) and how many thresholds it beat; the cycles row always
/// reports the `cycles` number (0 without one).  A document without
/// `scoring` is refused.
pub proof fn lemma_perf_scores_only_valid_results(doc: JsonView)
    ensures
        json_get(doc, "scoring"@) is None ==> perf_doc_outcome(doc) == Err::<Seq<MetricView>, Seq<char>>("no scoring in perf_takehome output"@),
        json_get(doc, "scoring"@) matches Some(s) ==> {
            &&& perf_doc_outcome(doc) is Ok
            &&& perf_doc_outcome(doc)->Ok_0.len() == 3
            &&& perf_doc_outcome(doc)->Ok_0[0].metric == "perf_speedup"@
            &&& perf_doc_outcome(doc)->Ok_0[1].metric == "perf_cycles"@
            &&& perf_doc_outcome(doc)->Ok_0[2].metric == "perf_thresholds"@
            &&& perf_doc_outcome(doc)->Ok_0[1].value == (match json_get(s, "cycles"@) {
                Some(JsonView::Number(n)) => MetricValueView::Number(n),
                _ => MetricValueView::Ratio(0, 1),
            })
            &&& (json_get(s, "correct"@) != Some(JsonView::Bool(true))
                || json_get(s, "tests_untouched"@) != Some(JsonView::Bool(true))) ==> {
                &&& perf_doc_outcome(doc)->Ok_0[0].value == MetricValueView::Ratio(0, 1)
                &&& perf_doc_outcome(doc)->Ok_0[2].value == MetricValueView::Ratio(0, 1)
            }
            &&& (json_get(s, "correct"@) == Some(JsonView::Bool(true))
                && json_get(s, "tests_untouched"@) == Some(JsonView::Bool(true))) ==> {
                &&& perf_doc_outcome(doc)->Ok_0[0].value == (match json_get(s, "speedup"@) {
                    Some(JsonView::Number(n)) => MetricValueView::Number(n),
                    _ => MetricValueView::Ratio(0, 1),
                })
                &&& perf_doc_outcome(doc)->Ok_0[2].value == (match json_get(s, "thresholds_beaten"@) {
                    Some(JsonView::Array(a)) => MetricValueView::Ratio(a.len() as u64, 1),
                    _ => MetricValueView::Ratio(0, 1),
                })
            }
        },
{
}

/// An optional member, copied, or `null`.
fn copy_or_null(j: Option<&Json>) -> (r: Json)
    ensures
        r@ == or_null(crate::json::opt_val(j)),
{
    match j {
        Some(v) => copy_json(v),
        None => Json::Null,
    }
}

/// A number member as a metric value, or zero.
fn value_or_zero(j: Option<&Json>) -> (r: MetricValue)
    ensures
        r@ == number_or_zero(crate::json::opt_val(j)),
{
    match j {
        Some(Json::Number(n)) => MetricValue::Number(copy_number(n)),
        _ => MetricValue::Ratio(0, 1),
    }
}

/// Reads perf-takehome's results JSON.
pub fn perf_takehome_results(text: &str) -> (r: Result<Vec<Metric>, String>)
    ensures
        match r {
            Ok(v) => perf_outcome(text@) == Ok::<Seq<MetricView>, Seq<char>>(rows(v@)),
            Err(e) => perf_outcome(text@) == Err::<Seq<MetricView>, Seq<char>>(e@),
        },
{
    match parse_json(text) {
        Ok(doc) => perf_takehome_metrics(&doc),
        Err(e) => {
            let mut m = owned("bad perf_takehome JSON: ");
            m.push_str(e.as_str());
            Err(m)
        },
    }
}

/// Reads perf-takehome's results document.
pub fn perf_takehome_metrics(doc: &Json) -> (r: Result<Vec<Metric>, String>)
    ensures
        match r {
            Ok(v) => perf_doc_outcome(doc@) == Ok::<Seq<MetricView>, Seq<char>>(rows(v@)),
            Err(e) => perf_doc_outcome(doc@) == Err::<Seq<MetricView>, Seq<char>>(e@),
        },
{
    let scoring = match get(doc, "scoring") {
        Some(s) => s,
        None => {
            return Err(owned("no scoring in perf_takehome output"));
        },
    };
    let correct = crate::json::flag_field(scoring, "correct");
    let untouched = crate::json::flag_field(scoring, "tests_untouched");
    let valid = correct && untouched;
    let beaten: u64 = match get(scoring, "thresholds_beaten") {
        Some(Json::Array(a)) => {
            proof { lemma_items_view(a@); }
            a.len() as u64
        },
        _ => 0,
    };
    let mut members: Vec<(String, Json)> = Vec::new();
    members.push((owned("correct"), Json::Bool(correct)));
    members.push((owned("cycles"), copy_or_null(get(scoring, "cycles"))));
    members.push((owned("tests_untouched"), Json::Bool(untouched)));
    members.push((owned("thresholds_beaten"), copy_or_null(get(scoring, "thresholds_beaten"))));
    proof {
        lemma_members_view(members@);
        assert(members_view(members@) =~= seq![
            ("correct"@, JsonView::Bool(correct)),
            ("cycles"@, or_null(json_get(scoring@, "cycles"@))),
            ("tests_untouched"@, JsonView::Bool(untouched)),
            ("thresholds_beaten"@, or_null(json_get(scoring@, "thresholds_beaten"@))),
        ]);
    }
    let extra_doc = Json::Object(members);
    let extra = write_json(&extra_doc);
    let mut out: Vec<Metric> = Vec::new();
    let speedup = if valid { value_or_zero(get(scoring, "speedup")) } else { MetricValue::Ratio(0, 1) };
    push_row(&mut out, Metric { metric: owned("perf_speedup"), value: speedup, unit: Some(owned("x")), extra: Some(extra.clone()) });
    push_row(&mut out, Metric { metric: owned("perf_cycles"), value: value_or_zero(get(scoring, "cycles")), unit: Some(owned("cycles")), extra: Some(extra.clone()) });
    let thresholds = if valid { MetricValue::Ratio(beaten, 1) } else { MetricValue::Ratio(0, 1) };
    push_row(&mut out, Metric { metric: owned("perf_thresholds"), value: thresholds, unit: Some(owned("count")), extra: Some(extra) });
    assert(rows(out@) =~= perf_rows(scoring@));
    Ok(out)
}

/// The text a driver's results are read from: the file it wrote, unless
/// that is empty or blank, else its printed output.
pub fn driver_output_source(results_text: &str, output: &str) -> (r: String)
    ensures
        r@ == (if crate::text::trim(results_text@).len() > 0 { results_text@ } else { output@ }),
{
    let t = crate::text::trimmed(results_text);
    if t.as_str().is_empty() {
        owned(output)
    } else {
        owned(results_text)
    }
}

} // verus!

verus! {

// ---------------------------------------------------------------------------
// micro_swe
// ---------------------------------------------------------------------------

/// The bytes of `"cases"`, the key that marks the results object.
pub open spec fn cases_key() -> Seq<u8> {
    seq![34u8, 99u8, 97u8, 115u8, 101u8, 115u8, 34u8]
}

/// The first position at or after `i` at which `pat` occurs in `b`.
pub open spec fn occurrence_from(b: Seq<u8>, pat: Seq<u8>, i: int) -> Option<int>
    decreases b.len() + 1 - i,
{
    if i < 0 || i + pat.len() > b.len() {
        None
    } else if b.subrange(i, i + pat.len()) == pat {
        Some(i)
    } else {
        occurrence_from(b, pat, i + 1)
    }
}

/// The first position at which `pat` occurs in `b` (`str::find`).
pub open spec fn first_occurrence(b: Seq<u8>, pat: Seq<u8>) -> Option<int> {
    occurrence_from(b, pat, 0)
}

/// The position of the last `{` in `b[start..n]`.
pub open spec fn last_brace_below(b: Seq<u8>, start: int, n: int) -> Option<int>
    decreases n - start,
{
    if n <= start || n > b.len() {
        None
    } else if b[n - 1] == 123u8 {
        Some(n - 1)
    } else {
        last_brace_below(b, start, n - 1)
    }
}

/// Where the results object starts in noisy output: the last `{` before
/// the first `"cases"`, which opens the object that holds the key.
pub open spec fn results_object_start(b: Seq<u8>) -> Option<int> {
    match first_occurrence(b, cases_key()) {
        Some(i) => last_brace_below(b, 0, i),
        None => None,
    }
}

/// The results object found in noisy output: the JSON value that starts
/// at that `{`, read up to its end whatever follows it.
pub open spec fn fallback_doc(b: Seq<u8>) -> Option<JsonView> {
    match results_object_start(b) {
        Some(j) => crate::json::json_leading_value(vstd::utf8::decode_utf8(b.subrange(j, b.len() as int))),
        None => None,
    }
}

/// The micro_swe results document of an output: all of it when it is JSON,
/// else the results object found inside it.
pub open spec fn micro_swe_doc(text: Seq<char>) -> Result<JsonView, Seq<char>> {
    match crate::json::json_parsed(text) {
        Some(d) => Ok(d),
        None => match fallback_doc(vstd::utf8::encode_utf8(text)) {
            Some(d) => Ok(d),
            None => Err("bad harness JSON: no results JSON in harness output"@),
        },
    }
}

/// Whether a case passed.
pub open spec fn case_passed(c: JsonView) -> bool {
    as_flag(json_get(c, "passed"@)) == Some(true)
}

/// The row of one case: `mswe@<case>` (`?` without a name), 1 when it
/// passed, else 0.
pub open spec fn case_row() -> spec_fn(JsonView) -> Seq<MetricView> {
    |c: JsonView| {
        let name = match as_text(json_get(c, "case"@)) {
            Some(t) => t,
            None => "?"@,
        };
        seq![row("mswe@"@ + name, if case_passed(c) { MetricValueView::Ratio(1, 1) } else { MetricValueView::Ratio(0, 1) }, Some("pass"@), None)]
    }
}

/// How many cases passed.
pub open spec fn passed_count(cases: Seq<JsonView>) -> nat
    decreases cases.len(),
{
    if cases.len() == 0 {
        0
    } else {
        passed_count(cases.drop_last()) + if case_passed(cases.last()) { 1nat } else { 0nat }
    }
}

/// The summary row: the pass rate, with the counts as extra JSON.
pub open spec fn pass_rate_row(passed: nat, total: nat) -> MetricView {
    row("mswe_pass_rate"@, MetricValueView::Ratio(passed as u64, total as u64), Some("pass"@), Some(
        "{\"total\":"@ + crate::text::decimal(total) + ",\"passed\":"@ + crate::text::decimal(passed) + "}"@,
    ))
}

/// The outcome of reading micro_swe's output: the pass rate followed by
/// one row per case, or the reason there is none.
pub open spec fn micro_swe_outcome(text: Seq<char>) -> Result<Seq<MetricView>, Seq<char>> {
    match micro_swe_doc(text) {
        Err(e) => Err(e),
        Ok(doc) => micro_swe_doc_outcome(doc, text),
    }
}

/// The outcome of micro_swe's results document `doc`, found in the output
/// `text`: the pass rate followed by one row per case, or the reason there
/// is none.
pub open spec fn micro_swe_doc_outcome(doc: JsonView, text: Seq<char>) -> Result<Seq<MetricView>, Seq<char>> {
    match as_items(json_get(doc, "cases"@)) {
        None => Err("no cases array in harness output"@),
        Some(cases) => if cases.len() == 0 {
            Err("no micro_swe cases in output:\n"@ + crate::text::head_lines(text, 20))
        } else {
            Ok(seq![pass_rate_row(passed_count(cases), cases.len())] + rows_for(cases, case_row()))
        },
    }
}

/// Rows made one per element are the element rows, in order.
proof fn lemma_rows_for_single<A>(s: Seq<A>, f: spec_fn(A) -> Seq<MetricView>)
    requires
        forall|x: A| (#[trigger] f(x)).len() == 1,
    ensures
        rows_for(s, f).len() == s.len(),
        forall|k: int| 0 <= k < s.len() ==> #[trigger] rows_for(s, f)[k] == f(s[k])[0],
    decreases s.len(),
{
    if s.len() > 0 {
        lemma_rows_for_single(s.drop_last(), f);
        let front = rows_for(s.drop_last(), f);
        assert(rows_for(s, f) == front + f(s.last()));
        assert forall|k: int| 0 <= k < s.len() implies #[trigger] rows_for(s, f)[k] == f(s[k])[0] by {
            if k < s.len() - 1 {
                assert(s.drop_last()[k] == s[k]);
            }
        }
    }
}

/// The counted passes lie between none and all cases: all of them exactly
/// when every case passed, none exactly when no case did.
proof fn lemma_passed_count_bounds(cases: Seq<JsonView>)
    ensures
        passed_count(cases) <= cases.len(),
        passed_count(cases) == cases.len() <==> forall|k: int| 0 <= k < cases.len() ==> #[trigger] case_passed(cases[k]),
        passed_count(cases) == 0 <==> forall|k: int| 0 <= k < cases.len() ==> !#[trigger] case_passed(cases[k]),
    decreases cases.len(),
{
    if cases.len() > 0 {
        let front = cases.drop_last();
        lemma_passed_count_bounds(front);
        assert forall|k: int| 0 <= k < front.len() implies #[trigger] front[k] == cases[k] by {}
        if passed_count(cases) == cases.len() {
            assert forall|k: int| 0 <= k < cases.len() implies #[trigger] case_passed(cases[k]) by {
                if k < front.len() {
                    assert(case_passed(front[k]));
                }
            }
        }
        if forall|k: int| 0 <= k < cases.len() ==> #[trigger] case_passed(cases[k]) {
            assert(case_passed(cases[cases.len() - 1]));
            assert forall|k: int| 0 <= k < front.len() implies #[trigger] case_passed(front[k]) by {
                assert(case_passed(cases[k]));
            }
        }
        if passed_count(cases) == 0 {
            assert forall|k: int| 0 <= k < cases.len() implies !#[trigger] case_passed(cases[k]) by {
                if k < front.len() {
                    assert(!case_passed(front[k]));
                }
            }
        }
        if forall|k: int| 0 <= k < cases.len() ==> !#[trigger] case_passed(cases[k]) {
            assert(!case_passed(cases[cases.len() - 1]));
            assert forall|k: int| 0 <= k < front.len() implies !#[trigger] case_passed(front[k]) by {
                assert(!case_passed(cases[k]));
            }
        }
    }
}

/// micro_swe refuses a results document without a `cases` array, and one
/// whose array is empty.
pub proof fn lemma_micro_swe_refusals(doc: JsonView, text: Seq<char>)
    ensures
        !(json_get(doc, "cases"@) matches Some(JsonView::Array(_))) ==>
            micro_swe_doc_outcome(doc, text) == Err::<Seq<MetricView>, Seq<char>>("no cases array in harness output"@),
        json_get(doc, "cases"@) == Some(JsonView::Array(Seq::empty())) ==>
            micro_swe_doc_outcome(doc, text) is Err,
{
}

/// micro_swe's report of a results document whose `cases` array holds
/// `n > 0` cases: the pass rate first, a ratio over `n` whose count is `n`
/// exactly when every case passed and 0 exactly when none did, then for
/// each case in order the row `mswe@<case>` (`?` without a name) reading 1
/// when its `passed` is `true` and 0 otherwise.
pub proof fn lemma_micro_swe_report(doc: JsonView, text: Seq<char>, cases: Seq<JsonView>)
    requires
        json_get(doc, "cases"@) == Some(JsonView::Array(cases)),
        0 < cases.len() <= u64::MAX,
    ensures
        micro_swe_doc_outcome(doc, text) is Ok,
        micro_swe_doc_outcome(doc, text)->Ok_0.len() == cases.len() + 1,
        micro_swe_doc_outcome(doc, text)->Ok_0[0].metric == "mswe_pass_rate"@,
        micro_swe_doc_outcome(doc, text)->Ok_0[0].unit == Some("pass"@),
        micro_swe_doc_outcome(doc, text)->Ok_0[0].value is Ratio,
        micro_swe_doc_outcome(doc, text)->Ok_0[0].value->Ratio_1 == cases.len(),
        micro_swe_doc_outcome(doc, text)->Ok_0[0].value->Ratio_0 <= cases.len(),
        micro_swe_doc_outcome(doc, text)->Ok_0[0].value->Ratio_0 == cases.len()
            <==> forall|k: int| 0 <= k < cases.len() ==> #[trigger] json_get(cases[k], "passed"@) == Some(JsonView::Bool(true)),
        micro_swe_doc_outcome(doc, text)->Ok_0[0].value->Ratio_0 == 0
            <==> forall|k: int| 0 <= k < cases.len() ==> #[trigger] json_get(cases[k], "passed"@) != Some(JsonView::Bool(true)),
        forall|k: int| 0 <= k < cases.len() ==> {
            let r = #[trigger] micro_swe_doc_outcome(doc, text)->Ok_0[k + 1];
            &&& r.metric == "mswe@"@ + (match json_get(cases[k], "case"@) {
                Some(JsonView::Str(name)) => name,
                _ => "?"@,
            })
            &&& r.value == (if json_get(cases[k], "passed"@) == Some(JsonView::Bool(true)) {
                MetricValueView::Ratio(1, 1)
            } else {
                MetricValueView::Ratio(0, 1)
            })
            &&& r.unit == Some("pass"@)
            &&& r.extra is None
        },
{
    let f = case_row();
    assert forall|x: JsonView| (#[trigger] f(x)).len() == 1 by {}
    lemma_rows_for_single(cases, f);
    lemma_passed_count_bounds(cases);
    let r = micro_swe_doc_outcome(doc, text)->Ok_0;
    let body = rows_for(cases, f);
    assert(r == seq![pass_rate_row(passed_count(cases), cases.len())] + body);
    let pc = passed_count(cases);
    assert(r[0].value == MetricValueView::Ratio(pc as u64, cases.len() as u64));
    assert((pc as u64) as nat == pc);
    assert((forall|k: int| 0 <= k < cases.len() ==> #[trigger] case_passed(cases[k]))
        <==> (forall|k: int| 0 <= k < cases.len() ==> #[trigger] json_get(cases[k], "passed"@) == Some(JsonView::Bool(true)))) by {
        if forall|k: int| 0 <= k < cases.len() ==> #[trigger] case_passed(cases[k]) {
            assert forall|k: int| 0 <= k < cases.len() implies #[trigger] json_get(cases[k], "passed"@) == Some(JsonView::Bool(true)) by {
                assert(case_passed(cases[k]));
            }
        }
        if forall|k: int| 0 <= k < cases.len() ==> #[trigger] json_get(cases[k], "passed"@) == Some(JsonView::Bool(true)) {
            assert forall|k: int| 0 <= k < cases.len() implies #[trigger] case_passed(cases[k]) by {
                assert(json_get(cases[k], "passed"@) == Some(JsonView::Bool(true)));
            }
        }
    }
    assert((forall|k: int| 0 <= k < cases.len() ==> !#[trigger] case_passed(cases[k]))
        <==> (forall|k: int| 0 <= k < cases.len() ==> #[trigger] json_get(cases[k], "passed"@) != Some(JsonView::Bool(true)))) by {
        if forall|k: int| 0 <= k < cases.len() ==> !#[trigger] case_passed(cases[k]) {
            assert forall|k: int| 0 <= k < cases.len() implies #[trigger] json_get(cases[k], "passed"@) != Some(JsonView::Bool(true)) by {
                assert(!case_passed(cases[k]));
            }
        }
        if forall|k: int| 0 <= k < cases.len() ==> #[trigger] json_get(cases[k], "passed"@) != Some(JsonView::Bool(true)) {
            assert forall|k: int| 0 <= k < cases.len() implies !#[trigger] case_passed(cases[k]) by {
                assert(json_get(cases[k], "passed"@) != Some(JsonView::Bool(true)));
            }
        }
    }
    assert forall|k: int| 0 <= k < cases.len() implies #[trigger] r[k + 1] == f(cases[k])[0] by {
        assert(r[k + 1] == body[k]);
    }
}

/// Position of the first `"cases"` in the output's bytes.
fn find_cases_key(b: &[u8]) -> (r: Option<usize>)
    ensures
        match r {
            Some(i) => first_occurrence(b@, cases_key()) == Some(i as int) && i + 7 <= b.len(),
            None => first_occurrence(b@, cases_key()) is None,
        },
{
    let key: [u8; 7] = [34u8, 99u8, 97u8, 115u8, 101u8, 115u8, 34u8];
    assert(key@ =~= cases_key());
    assert(cases_key().len() == 7);
    if b.len() < 7 {
        return None;
    }
    let mut i: usize = 0;
    while i <= b.len() - 7
        invariant
            7 <= b.len(),
            key@ == cases_key(),
            cases_key().len() == 7,
            i <= b.len() - 6,
            occurrence_from(b@, cases_key(), i as int) == first_occurrence(b@, cases_key()),
        decreases b.len() - i,
    {
        let mut k: usize = 0;
        let mut same = true;
        while k < 7
            invariant
                i + 7 <= b.len(),
                k <= 7,
                key@ == cases_key(),
                same == (forall|m: int| 0 <= m < k ==> b@[i + m] == key@[m]),
            decreases 7 - k,
        {
            if b[i + k] != key[k] {
                same = false;
            }
            k += 1;
        }
        if same {
            assert(b@.subrange(i as int, i + 7) =~= cases_key());
            return Some(i);
        }
        assert(b@.subrange(i as int, i + 7) != cases_key()) by {
            let m = choose|m: int| 0 <= m < 7 && b@[i + m] != key@[m];
            assert(b@.subrange(i as int, i + 7)[m] == b@[i + m]);
        }
        i += 1;
    }
    None
}

/// Position of the last `{` before `end`.
fn find_last_brace(b: &[u8], end: usize) -> (r: Option<usize>)
    requires
        end <= b.len(),
    ensures
        match r {
            Some(j) => last_brace_below(b@, 0, end as int) == Some(j as int) && j < end && b@[j as int] == 123u8,
            None => last_brace_below(b@, 0, end as int) is None,
        },
{
    let mut n: usize = end;
    while n > 0
        invariant
            n <= end <= b.len(),
            last_brace_below(b@, 0, n as int) == last_brace_below(b@, 0, end as int),
        decreases n,
    {
        if b[n - 1] == 123u8 {
            return Some(n - 1);
        }
        n -= 1;
    }
    None
}

/// A `{` byte of a UTF-8 text starts a character.
proof fn lemma_brace_is_boundary(text: Seq<char>, j: int)
    requires
        0 <= j < vstd::utf8::encode_utf8(text).len(),
        vstd::utf8::encode_utf8(text)[j] == 123u8,
    ensures
        vstd::utf8::is_char_boundary(vstd::utf8::encode_utf8(text), j),
{
    vstd::utf8::encode_utf8_valid_utf8(text);
    vstd::utf8::is_char_boundary_iff_is_leading_byte(vstd::utf8::encode_utf8(text), j);
}

/// The characters of a string are what its bytes decode to.
proof fn lemma_decode_bytes(text: Seq<char>, bytes: Seq<u8>)
    requires
        vstd::utf8::encode_utf8(text) == bytes,
    ensures
        vstd::utf8::decode_utf8(bytes) == text,
{
    vstd::utf8::encode_utf8_decode_utf8(text);
}

/// The results object a noisy output holds, for the fallback search.
fn micro_swe_fallback(stdout: &str) -> (r: Option<Json>)
    ensures
        match r {
            Some(d) => fallback_doc(vstd::utf8::encode_utf8(stdout@)) == Some(d@),
            None => fallback_doc(vstd::utf8::encode_utf8(stdout@)) is None,
        },
{
    let b = stdout.as_bytes();
    assert(b@ == vstd::utf8::encode_utf8(stdout@));
    let idx = match find_cases_key(b) {
        Some(i) => i,
        None => return None,
    };
    let j = match find_last_brace(b, idx) {
        Some(j) => j,
        None => return None,
    };
    proof {
        lemma_brace_is_boundary(stdout@, j as int);
    }
    let (_, tail) = stdout.split_at(j);
    proof {
        lemma_decode_bytes(tail@, b@.subrange(j as int, b@.len() as int));
    }
    crate::json::parse_leading_json(tail)
}

/// Reads the results document of micro_swe's output.
fn micro_swe_document(stdout: &str) -> (r: Result<Json, String>)
    ensures
        match r {
            Ok(d) => micro_swe_doc(stdout@) == Ok::<JsonView, Seq<char>>(d@),
            Err(e) => micro_swe_doc(stdout@) == Err::<JsonView, Seq<char>>(e@),
        },
{
    match parse_json(stdout) {
        Ok(d) => Ok(d),
        Err(_) => match micro_swe_fallback(stdout) {
            Some(d) => Ok(d),
            None => Err(owned("bad harness JSON: no results JSON in harness output")),
        },
    }
}

/// The rows of the cases, and how many passed.
fn case_metrics(cases: &Vec<Json>) -> (r: (Vec<Metric>, u64))
    ensures
        rows(r.0@) == rows_for(items_view(cases@), case_row()),
        r.1 == passed_count(items_view(cases@)),
        r.1 <= cases.len(),
{
    let ghost cv = items_view(cases@);
    proof { lemma_items_view(cases@); }
    let ghost f = case_row();
    let mut case_rows: Vec<Metric> = Vec::new();
    let mut passed: u64 = 0;
    let mut i: usize = 0;
    assert(rows(case_rows@) =~= rows_for(cv.take(0), f));
    while i < cases.len()
        invariant
            i <= cases.len(),
            cv == items_view(cases@),
            cv.len() == cases.len(),
            forall|k: int| 0 <= k < cases.len() ==> #[trigger] cv[k] == cases@[k]@,
            f == case_row(),
            rows(case_rows@) == rows_for(cv.take(i as int), f),
            passed == passed_count(cv.take(i as int)),
            passed <= i,
        decreases cases.len() - i,
    {
        proof {
            lemma_rows_for_step(cv, f, i as int);
            let t = cv.take(i + 1);
            assert(t.drop_last() == cv.take(i as int));
            assert(t.last() == cv[i as int]);
        }
        let c = &cases[i];
        let name = text_field_or(c, "case", "?");
        let ok = crate::json::flag_field(c, "passed");
        let mut metric = owned("mswe@");
        metric.push_str(name.as_str());
        let value = if ok { MetricValue::Ratio(1, 1) } else { MetricValue::Ratio(0, 1) };
        push_row(&mut case_rows, Metric { metric, value, unit: Some(owned("pass")), extra: None });
        assert(rows(case_rows@) =~= rows_for(cv.take(i + 1), f));
        if ok {
            passed += 1;
        }
        i += 1;
    }
    proof { lemma_rows_for_all(cv, f); }
    assert(cv.take(cv.len() as int) == cv);
    (case_rows, passed)
}

/// A copy of a row.
fn copy_metric(m: &Metric) -> (r: Metric)
    ensures
        r@ == m@,
{
    Metric {
        metric: m.metric.clone(),
        value: match &m.value {
            MetricValue::Number(n) => MetricValue::Number(copy_number(n)),
            MetricValue::Ratio(a, b) => MetricValue::Ratio(*a, *b),
            MetricValue::MeanOfNext(n) => MetricValue::MeanOfNext(*n),
        },
        unit: match &m.unit {
            Some(u) => Some(u.clone()),
            None => None,
        },
        extra: match &m.extra {
            Some(x) => Some(x.clone()),
            None => None,
        },
    }
}

/// The pass-rate row followed by the case rows.
fn with_pass_rate(case_rows: &Vec<Metric>, passed: u64, total: u64) -> (r: Vec<Metric>)
    ensures
        rows(r@) == seq![pass_rate_row(passed as nat, total as nat)] + rows(case_rows@),
{
    let mut extra = owned("{\"total\":");
    crate::text::push_decimal(&mut extra, total);
    extra.push_str(",\"passed\":");
    crate::text::push_decimal(&mut extra, passed);
    extra.push_str("}");
    let mut out: Vec<Metric> = Vec::new();
    push_row(&mut out, Metric {
        metric: owned("mswe_pass_rate"),
        value: MetricValue::Ratio(passed, total),
        unit: Some(owned("pass")),
        extra: Some(extra),
    });
    let ghost first = rows(out@);
    assert(first == seq![pass_rate_row(passed as nat, total as nat)]);
    let mut k: usize = 0;
    assert(rows(out@) =~= first + rows(case_rows@).take(0));
    while k < case_rows.len()
        invariant
            k <= case_rows.len(),
            rows(out@) == first + rows(case_rows@).take(k as int),
        decreases case_rows.len() - k,
    {
        let m = copy_metric(&case_rows[k]);
        push_row(&mut out, m);
        assert(rows(out@) =~= first + rows(case_rows@).take(k + 1));
        k += 1;
    }
    assert(rows(case_rows@).take(case_rows.len() as int) =~= rows(case_rows@));
    out
}

/// Reads micro_swe's results: the pass rate, then one row per case.
pub fn parse_micro_swe(stdout: &str) -> (r: Result<Vec<Metric>, String>)
    ensures
        match r {
            Ok(v) => micro_swe_outcome(stdout@) == Ok::<Seq<MetricView>, Seq<char>>(rows(v@)),
            Err(e) => micro_swe_outcome(stdout@) == Err::<Seq<MetricView>, Seq<char>>(e@),
        },
{
    match micro_swe_document(stdout) {
        Ok(doc) => micro_swe_metrics(&doc, stdout),
        Err(e) => Err(e),
    }
}

/// Reads a micro_swe results document found in the output `stdout`: the
/// pass rate, then one row per case.
pub fn micro_swe_metrics(doc: &Json, stdout: &str) -> (r: Result<Vec<Metric>, String>)
    ensures
        match r {
            Ok(v) => micro_swe_doc_outcome(doc@, stdout@) == Ok::<Seq<MetricView>, Seq<char>>(rows(v@)),
            Err(e) => micro_swe_doc_outcome(doc@, stdout@) == Err::<Seq<MetricView>, Seq<char>>(e@),
        },
{
    let cases = match get(doc, "cases") {
        Some(Json::Array(c)) => c,
        _ => return Err(owned("no cases array in harness output")),
    };
    proof { lemma_items_view(cases@); }
    let (case_rows, passed) = case_metrics(cases);
    if cases.len() == 0 {
        let mut e = owned("no micro_swe cases in output:\n");
        let head = crate::text::first_lines(stdout, 20);
        e.push_str(head.as_str());
        return Err(e);
    }
    let total = cases.len() as u64;
    Ok(with_pass_rate(&case_rows, passed, total))
}


} // verus!

verus! {

// ---------------------------------------------------------------------------
// Harnesses that print their scores
// ---------------------------------------------------------------------------

/// `python3 -m lcb_runner.runner.main` for a run: scenario (`scenario`,
/// default `codegeneration`), release (`release_version`, default
/// `release_v6`) and samples (`n`, default 5).  The model flag names a
/// routing key; the real model goes through the environment.
pub fn livecodebench_args(config: &Json) -> (args: Vec<String>)
    ensures
        texts(args@) == seq![
            "-m"@, "lcb_runner.runner.main"@, "--model"@, "gpt-4o-mini-2024-07-18"@,
            "--scenario"@, (match as_text(json_get(config@, "scenario"@)) { Some(t) => t, None => "codegeneration"@ }),
            "--release_version"@, (match as_text(json_get(config@, "release_version"@)) { Some(t) => t, None => "release_v6"@ }),
            "--n"@, int_setting_text(config@, "n"@, 5), "--evaluate"@,
        ],
{
    let scenario = text_field_or(config, "scenario", "codegeneration");
    let release = text_field_or(config, "release_version", "release_v6");
    let n = int_setting(config, "n", 5);
    let mut a: Vec<String> = Vec::new();
    push_text(&mut a, "-m");
    push_text(&mut a, "lcb_runner.runner.main");
    push_text(&mut a, "--model");
    push_text(&mut a, "gpt-4o-mini-2024-07-18");
    push_text(&mut a, "--scenario");
    push_string(&mut a, scenario);
    push_text(&mut a, "--release_version");
    push_string(&mut a, release);
    push_text(&mut a, "--n");
    push_string(&mut a, n);
    push_text(&mut a, "--evaluate");
    a
}

/// The first non-empty piece.
pub open spec fn first_nonempty(pieces: Seq<Seq<char>>) -> Option<Seq<char>>
    decreases pieces.len(),
{
    if pieces.len() == 0 {
        None
    } else if pieces[0].len() > 0 {
        Some(pieces[0])
    } else {
        first_nonempty(pieces.drop_first())
    }
}

/// The number texts a LiveCodeBench output line offers: the trimmed rest
/// of an `LCB_PASS@1 ` line, and the first run of digits and dots after
/// the first `pass@1` (up to a second one).
pub open spec fn lcb_line_values_of(line: Seq<char>) -> (Option<Seq<char>>, Option<Seq<char>>) {
    let prefixed = match crate::text::strip_prefix(line, "LCB_PASS@1 "@) {
        Some(v) => Some(crate::text::trim(v)),
        None => None,
    };
    let marked = match crate::text::find_str(line, "pass@1"@) {
        Some(k) => {
            let rest = line.subrange(k + 6, line.len() as int);
            let cap = match crate::text::find_str(rest, "pass@1"@) {
                Some(m) => rest.subrange(0, m),
                None => rest,
            };
            first_nonempty(crate::text::split_by(cap, crate::text::CharClass::NonNumeric))
        },
        None => None,
    };
    (prefixed, marked)
}

/// The first non-empty string.
fn first_nonempty_of(v: &Vec<String>) -> (r: Option<String>)
    ensures
        match r {
            Some(s) => first_nonempty(crate::text::texts_of(v@)) == Some(s@),
            None => first_nonempty(crate::text::texts_of(v@)) is None,
        },
{
    let ghost t = crate::text::texts_of(v@);
    let mut i: usize = 0;
    assert(t.subrange(0, t.len() as int) == t);
    while i < v.len()
        invariant
            i <= v.len(),
            t == crate::text::texts_of(v@),
            first_nonempty(t.subrange(i as int, t.len() as int)) == first_nonempty(t),
        decreases v.len() - i,
    {
        let ghost rest = t.subrange(i as int, t.len() as int);
        assert(rest[0] == v@[i as int]@);
        if !v[i].as_str().is_empty() {
            return Some(v[i].clone());
        }
        assert(rest.drop_first() == t.subrange(i + 1, t.len() as int));
        i += 1;
    }
    None
}

/// The trimmed rest of an `LCB_PASS@1 ` line.
fn lcb_prefixed_value(v: &Vec<char>) -> (r: Option<String>)
    ensures
        (match r { Some(s) => Some(s@), None => None::<Seq<char>> }) == lcb_line_values_of(v@).0,
{
    let pre = chars_of("LCB_PASS@1 ");
    if crate::text::starts_with(v, &pre) {
        let (a, b) = crate::text::trim_range(v, pre.len(), v.len());
        Some(crate::text::string_of(v, a, b))
    } else {
        None
    }
}

/// The part of `v` after its first `pass@1`, up to a second one.
fn after_first_mark(v: &Vec<char>, mark: &Vec<char>, k: usize) -> (r: String)
    requires
        mark@ == "pass@1"@,
        k + mark.len() <= v.len(),
        crate::text::find_str(v@, "pass@1"@) == Some(k as int),
    ensures
        r@ == ({
            let rest = v@.subrange(k + 6, v@.len() as int);
            match crate::text::find_str(rest, "pass@1"@) {
                Some(m) => rest.subrange(0, m),
                None => rest,
            }
        }),
{
    assert(mark@.len() == 6) by {
        reveal_strlit("pass@1");
    }
    let lo = k + mark.len();
    let hi = match crate::text::find_chars_from(v, mark, lo) {
        Some(m) => m,
        None => v.len(),
    };
    proof {
        let rest = v@.subrange(lo as int, v.len() as int);
        if crate::text::find_str(rest, "pass@1"@) is Some {
            assert(rest.subrange(0, hi - lo) == v@.subrange(lo as int, hi as int));
        } else {
            assert(rest == v@.subrange(lo as int, hi as int));
        }
    }
    crate::text::string_of(v, lo, hi)
}

/// The first run of digits and dots after the first `pass@1`.
fn lcb_marked_value(v: &Vec<char>) -> (r: Option<String>)
    ensures
        (match r { Some(s) => Some(s@), None => None::<Seq<char>> }) == lcb_line_values_of(v@).1,
{
    let mark = chars_of("pass@1");
    assert(v@.subrange(0, v.len() as int) == v@);
    match crate::text::find_chars_from(v, &mark, 0) {
        Some(k) => {
            let cap = after_first_mark(v, &mark, k);
            let pieces = crate::text::split_by_class(cap.as_str(), crate::text::CharClass::NonNumeric);
            first_nonempty_of(&pieces)
        },
        None => None,
    }
}

/// Reads the number texts of a LiveCodeBench output line.
pub fn lcb_line_values(line: &str) -> (r: (Option<String>, Option<String>))
    ensures
        (match r.0 { Some(s) => Some(s@), None => None::<Seq<char>> }, match r.1 { Some(s) => Some(s@), None => None::<Seq<char>> })
            == lcb_line_values_of(line@),
{
    let v = chars_of(line);
    (lcb_prefixed_value(&v), lcb_marked_value(&v))
}

/// The row a LiveCodeBench `*_eval.json` text gives: its `pass@1` number,
/// with the file named in the extra JSON.
pub open spec fn lcb_file_row(text: Seq<char>, file: Seq<char>) -> Option<MetricView> {
    match crate::json::json_parsed(text) {
        Some(doc) => match as_number(json_get(doc, "pass@1"@)) {
            Some(n) => Some(row("lcb_pass_at_1"@, MetricValueView::Number(n), Some("pass"@), Some("{\"file\":\""@ + file + "\"}"@))),
            None => None,
        },
        None => None,
    }
}

/// Reads a LiveCodeBench `*_eval.json` text.
pub fn lcb_file_metric(text: &str, file: &str) -> (r: Option<Metric>)
    ensures
        match r {
            Some(m) => lcb_file_row(text@, file@) == Some(m@),
            None => lcb_file_row(text@, file@) is None,
        },
{
    match parse_json(text) {
        Ok(doc) => match get(&doc, "pass@1") {
            Some(Json::Number(n)) => {
                let mut extra = owned("{\"file\":\"");
                extra.push_str(file);
                extra.push_str("\"}");
                Some(Metric { metric: owned("lcb_pass_at_1"), value: MetricValue::Number(copy_number(n)), unit: Some(owned("pass")), extra: Some(extra) })
            },
            _ => None,
        },
        Err(_) => None,
    }
}

/// `python3 -m swebench.harness.run_evaluation` for a run: dataset
/// (`dataset`, default `princeton-nlp/SWE-bench_Verified`), split (`split`,
/// default `test`) and workers (`n`, default 10).
pub fn swebench_args(config: &Json, endpoint: &EvalEndpoint) -> (args: Vec<String>)
    ensures
        texts(args@) == seq![
            "-m"@, "swebench.harness.run_evaluation"@,
            "--dataset_name"@, (match as_text(json_get(config@, "dataset"@)) { Some(t) => t, None => "princeton-nlp/SWE-bench_Verified"@ }),
            "--split"@, (match as_text(json_get(config@, "split"@)) { Some(t) => t, None => "test"@ }),
            "--model_name"@, "openai/"@ + model_name_of(*endpoint),
            "--max_workers"@, int_setting_text(config@, "n"@, 10),
        ],
{
    let dataset = text_field_or(config, "dataset", "princeton-nlp/SWE-bench_Verified");
    let split = text_field_or(config, "split", "test");
    let n = int_setting(config, "n", 10);
    let mut a: Vec<String> = Vec::new();
    push_text(&mut a, "-m");
    push_text(&mut a, "swebench.harness.run_evaluation");
    push_text(&mut a, "--dataset_name");
    push_string(&mut a, dataset);
    push_text(&mut a, "--split");
    push_string(&mut a, split);
    push_text(&mut a, "--model_name");
    push_string(&mut a, openai_model(endpoint));
    push_text(&mut a, "--max_workers");
    push_string(&mut a, n);
    a
}

/// The number texts of a SWE-bench output line: on a line that mentions
/// `resolved` or `pass_rate`, each word without leading or trailing
/// characters other than digits and dots.
pub open spec fn swebench_line_tokens_of(line: Seq<char>) -> Seq<Seq<char>> {
    if crate::text::contains(line, "resolved"@) || crate::text::contains(line, "pass_rate"@) {
        crate::text::words(line).map_values(|w: Seq<char>| crate::text::trim_class(w, crate::text::CharClass::NonNumeric))
    } else {
        Seq::empty()
    }
}

/// Reads the number texts of a SWE-bench output line.
pub fn swebench_line_tokens(line: &str) -> (r: Vec<String>)
    ensures
        texts(r@) == swebench_line_tokens_of(line@),
{
    let v = chars_of(line);
    let p1 = chars_of("resolved");
    let p2 = chars_of("pass_rate");
    let mut out: Vec<String> = Vec::new();
    if !(contains_chars(&v, &p1) || contains_chars(&v, &p2)) {
        assert(texts(out@) =~= Seq::<Seq<char>>::empty());
        return out;
    }
    let ws = crate::text::runs_of(line, crate::text::CharClass::Space);
    let ghost wv = crate::text::texts_of(ws@);
    let mut i: usize = 0;
    while i < ws.len()
        invariant
            i <= ws.len(),
            wv == crate::text::texts_of(ws@),
            wv == crate::text::words(line@),
            texts(out@) == wv.take(i as int).map_values(|w: Seq<char>| crate::text::trim_class(w, crate::text::CharClass::NonNumeric)),
        decreases ws.len() - i,
    {
        let t = crate::text::trimmed_class(ws[i].as_str(), crate::text::CharClass::NonNumeric);
        push_string(&mut out, t);
        assert(texts(out@) =~= wv.take(i + 1).map_values(|w: Seq<char>| crate::text::trim_class(w, crate::text::CharClass::NonNumeric)));
        i += 1;
    }
    assert(wv.take(ws.len() as int) == wv);
    out
}

/// `python3 -m toolathlon.run` against the endpoint.
pub fn toolathlon_args(endpoint: &EvalEndpoint) -> (args: Vec<String>)
    ensures
        texts(args@) == seq![
            "-m"@, "toolathlon.run"@, "--model"@, "openai/"@ + model_name_of(*endpoint),
            "--api_base"@, api_root_of(endpoint.base_url@) + "/v1"@,
        ],
{
    let mut a: Vec<String> = Vec::new();
    push_text(&mut a, "-m");
    push_text(&mut a, "toolathlon.run");
    push_text(&mut a, "--model");
    push_string(&mut a, openai_model(endpoint));
    push_text(&mut a, "--api_base");
    push_string(&mut a, endpoint_v1_base(endpoint));
    a
}

/// The number texts of a Toolathlon output line: on a line that mentions
/// `score` or `success` in any case (what comparing its `to_lowercase()`
/// decides, as only ASCII capitals lower-case to these letters), each
/// piece between `:`, `=` and `,`, trimmed.
pub open spec fn toolathlon_line_tokens_of(line: Seq<char>) -> Seq<Seq<char>> {
    if crate::text::contains_any_case(line, "score"@, "SCORE"@) || crate::text::contains_any_case(line, "success"@, "SUCCESS"@) {
        crate::text::split_by(line, crate::text::CharClass::FieldSep).map_values(|p: Seq<char>| crate::text::trim(p))
    } else {
        Seq::empty()
    }
}

/// `w` occurs in `line` at `i`, each letter in either case: `w` is the
/// lower-case word and `caps` its capitals.
pub open spec fn word_at_any_case(line: Seq<char>, w: Seq<char>, caps: Seq<char>, i: int) -> bool {
    0 <= i && i + w.len() <= line.len() && w.len() == caps.len()
        && forall|j: int| 0 <= j < w.len() ==> (#[trigger] line[i + j] == w[j] || line[i + j] == caps[j])
}

/// A Toolathlon line that mentions `score` or `success`, in any mix of
/// upper and lower case (`score`, `Score`, `SCORE`, `sCoRe`, ...), yields
/// its pieces between `:`, `=` and `,`, each trimmed, and so at least one
/// token.
pub proof fn lemma_toolathlon_score_lines(line: Seq<char>, i: int)
    requires
        word_at_any_case(line, "score"@, "SCORE"@, i) || word_at_any_case(line, "success"@, "SUCCESS"@, i),
    ensures
        toolathlon_line_tokens_of(line)
            == crate::text::split_by(line, crate::text::CharClass::FieldSep).map_values(|p: Seq<char>| crate::text::trim(p)),
        toolathlon_line_tokens_of(line).len() > 0,
{
    reveal_strlit("score");
    reveal_strlit("SCORE");
    reveal_strlit("success");
    reveal_strlit("SUCCESS");
    if word_at_any_case(line, "score"@, "SCORE"@, i) {
        assert(crate::text::occurs_any_case_at(line, "score"@, "SCORE"@, i));
    } else {
        assert(crate::text::occurs_any_case_at(line, "success"@, "SUCCESS"@, i));
    }
    let pieces = crate::text::split_by(line, crate::text::CharClass::FieldSep);
    assert(pieces.len() > 0);
}

/// A line with `score` or `success` written in lower case is one such
/// line.
pub proof fn lemma_toolathlon_lower_case_score(line: Seq<char>)
    requires
        crate::text::contains(line, "score"@) || crate::text::contains(line, "success"@),
    ensures
        toolathlon_line_tokens_of(line).len() > 0,
{
    reveal_strlit("score");
    reveal_strlit("SCORE");
    reveal_strlit("success");
    reveal_strlit("SUCCESS");
    if crate::text::contains(line, "score"@) {
        let i = choose|i: int| crate::text::occurs_at(line, "score"@, i);
        assert forall|j: int| 0 <= j < 5 implies #[trigger] line[i + j] == "score"@[j] by {
            assert(line.subrange(i, i + 5)[j] == line[i + j]);
        }
        lemma_toolathlon_score_lines(line, i);
    } else {
        let i = choose|i: int| crate::text::occurs_at(line, "success"@, i);
        assert forall|j: int| 0 <= j < 7 implies #[trigger] line[i + j] == "success"@[j] by {
            assert(line.subrange(i, i + 7)[j] == line[i + j]);
        }
        lemma_toolathlon_score_lines(line, i);
    }
}

/// Reads the number texts of a Toolathlon output line.
pub fn toolathlon_line_tokens(line: &str) -> (r: Vec<String>)
    ensures
        texts(r@) == toolathlon_line_tokens_of(line@),
{
    let v = chars_of(line);
    let l1 = chars_of("score");
    let u1 = chars_of("SCORE");
    let l2 = chars_of("success");
    let u2 = chars_of("SUCCESS");
    proof {
        reveal_strlit("score");
        reveal_strlit("SCORE");
        reveal_strlit("success");
        reveal_strlit("SUCCESS");
    }
    let mut out: Vec<String> = Vec::new();
    if !(crate::text::contains_ignoring_case(&v, &l1, &u1) || crate::text::contains_ignoring_case(&v, &l2, &u2)) {
        assert(texts(out@) =~= Seq::<Seq<char>>::empty());
        return out;
    }
    let ps = split_by_class_text(line);
    let ghost pv = crate::text::texts_of(ps@);
    let mut i: usize = 0;
    while i < ps.len()
        invariant
            i <= ps.len(),
            pv == crate::text::texts_of(ps@),
            pv == crate::text::split_by(line@, crate::text::CharClass::FieldSep),
            texts(out@) == pv.take(i as int).map_values(|p: Seq<char>| crate::text::trim(p)),
        decreases ps.len() - i,
    {
        let t = crate::text::trimmed(ps[i].as_str());
        push_string(&mut out, t);
        assert(texts(out@) =~= pv.take(i + 1).map_values(|p: Seq<char>| crate::text::trim(p)));
        i += 1;
    }
    assert(pv.take(ps.len() as int) == pv);
    out
}

/// The pieces of a line between `:`, `=` and `,`.
fn split_by_class_text(line: &str) -> (r: Vec<String>)
    ensures
        crate::text::texts_of(r@) == crate::text::split_by(line@, crate::text::CharClass::FieldSep),
{
    crate::text::split_by_class(line, crate::text::CharClass::FieldSep)
}

/// `python3 run.py` of frontier-swe against the endpoint.
pub fn frontier_swe_args(endpoint: &EvalEndpoint) -> (args: Vec<String>)
    ensures
        texts(args@) == seq![
            "run.py"@, "--model"@, "openai/"@ + model_name_of(*endpoint),
            "--api_base"@, api_root_of(endpoint.base_url@) + "/v1"@,
        ],
{
    let mut a: Vec<String> = Vec::new();
    push_text(&mut a, "run.py");
    push_text(&mut a, "--model");
    push_string(&mut a, openai_model(endpoint));
    push_text(&mut a, "--api_base");
    push_string(&mut a, endpoint_v1_base(endpoint));
    a
}

/// The number texts of a frontier-swe output line: the words of a line that
/// mentions `dominance`.
pub open spec fn frontier_line_tokens_of(line: Seq<char>) -> Seq<Seq<char>> {
    if crate::text::contains(line, "dominance"@) {
        crate::text::words(line)
    } else {
        Seq::empty()
    }
}

/// Reads the number texts of a frontier-swe output line.
pub fn frontier_line_tokens(line: &str) -> (r: Vec<String>)
    ensures
        texts(r@) == frontier_line_tokens_of(line@),
{
    let v = chars_of(line);
    let p = chars_of("dominance");
    if contains_chars(&v, &p) {
        let ws = crate::text::runs_of(line, crate::text::CharClass::Space);
        assert(texts(ws@) =~= crate::text::texts_of(ws@));
        ws
    } else {
        let out: Vec<String> = Vec::new();
        assert(texts(out@) =~= Seq::<Seq<char>>::empty());
        out
    }
}

} // verus!

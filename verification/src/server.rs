//! The decisions the HTTP API makes before it touches the database: server
//! settings read from the environment, request validation and the queries
//! it issues.

use vstd::prelude::*;

use crate::text::{
    chars_of, decimal, owned, parse_unsigned, parse_unsigned_upto, push_decimal, str_eq,
};

verus! {

// ---------------------------------------------------------------------------
// Settings
// ---------------------------------------------------------------------------

/// `c` is the letter `lower` or its ASCII capital `upper`.
pub open spec fn is_letter(c: char, lower: char, upper: char) -> bool {
    c == lower || c == upper
}

/// `s` reads as `true` whatever the case of its letters.  (Only the ASCII
/// capitals lower-case to the letters of `true`, so this is what comparing
/// `to_lowercase()` with `true` decides.)
pub open spec fn is_true_word(s: Seq<char>) -> bool {
    s.len() == 4 && is_letter(s[0], 't', 'T') && is_letter(s[1], 'r', 'R')
        && is_letter(s[2], 'u', 'U') && is_letter(s[3], 'e', 'E')
}

/// Whether a setting switches a feature on: `1`, or `true` in any case.
pub open spec fn flag_on(v: Seq<char>) -> bool {
    v == "1"@ || is_true_word(v)
}

/// Reads `BACKYARD_AUTH_DISABLED`: an unset variable leaves login on.
pub fn auth_disabled(value: Option<&str>) -> (r: bool)
    ensures
        r == (value matches Some(v) && flag_on(v@)),
{
    match value {
        None => false,
        Some(v) => {
            if str_eq(v, "1") {
                return true;
            }
            let cs = chars_of(v);
            cs.len() == 4 && (cs[0] == 't' || cs[0] == 'T') && (cs[1] == 'r' || cs[1] == 'R')
                && (cs[2] == 'u' || cs[2] == 'U') && (cs[3] == 'e' || cs[3] == 'E')
        },
    }
}

/// The address the server binds: `BACKYARD_HOST`, or all interfaces.
pub fn server_host(value: Option<&str>) -> (r: String)
    ensures
        r@ == (match value {
            Some(v) => v@,
            None => "0.0.0.0"@,
        }),
{
    match value {
        Some(v) => owned(v),
        None => owned("0.0.0.0"),
    }
}

/// The port setting that is read: `PORT` when it is set, else
/// `BACKYARD_PORT`.
pub open spec fn port_setting(port: Option<Seq<char>>, backyard_port: Option<Seq<char>>) -> Option<Seq<char>> {
    if port is Some { port } else { backyard_port }
}

/// The port the server binds: the chosen setting as a `u16`, 8080 when it is
/// unset or not a port number.  A set but unreadable `PORT` does not fall
/// back to `BACKYARD_PORT`.
pub open spec fn port_of(port: Option<Seq<char>>, backyard_port: Option<Seq<char>>) -> nat {
    match port_setting(port, backyard_port) {
        Some(t) => match parse_unsigned(t, 0xffff) {
            Some(p) => p,
            None => 8080,
        },
        None => 8080,
    }
}

/// The view of an optional string slice.
pub open spec fn opt_view(s: Option<&str>) -> Option<Seq<char>> {
    match s {
        Some(t) => Some(t@),
        None => None,
    }
}

/// Reads the port from `PORT` and `BACKYARD_PORT`.
pub fn server_port(port: Option<&str>, backyard_port: Option<&str>) -> (r: u16)
    ensures
        r as nat == port_of(opt_view(port), opt_view(backyard_port)),
{
    let chosen = match port {
        Some(p) => Some(p),
        None => backyard_port,
    };
    match chosen {
        Some(t) => match parse_unsigned_upto(t, 0xffff) {
            Some(p) => p as u16,
            None => 8080,
        },
        None => 8080,
    }
}

// ---------------------------------------------------------------------------
// Requests
// ---------------------------------------------------------------------------

/// Why the first-admin setup is refused.
#[derive(Debug, Clone, Copy, PartialEq, Eq, Structural)]
pub enum SetupError {
    /// a user exists already
    AlreadyConfigured,
    /// username under 3 bytes or password under 8 bytes
    TooShort,
}

impl SetupError {
    /// The message the API answers with.
    pub fn message(&self) -> (m: &'static str)
        ensures
            m@ == (match *self {
                SetupError::AlreadyConfigured => "Admin account already configured"@,
                SetupError::TooShort => "Username (3+ chars) and password (8+ chars) required"@,
            }),
    {
        match self {
            SetupError::AlreadyConfigured => "Admin account already configured",
            SetupError::TooShort => "Username (3+ chars) and password (8+ chars) required",
        }
    }
}

/// The outcome of the first-admin setup request given how many users exist.
pub open spec fn setup_outcome(user_count: int, username_bytes: nat, password_bytes: nat) -> Result<(), SetupError> {
    if user_count > 0 {
        Err(SetupError::AlreadyConfigured)
    } else if username_bytes < 3 || password_bytes < 8 {
        Err(SetupError::TooShort)
    } else {
        Ok(())
    }
}

/// Checks a first-admin setup request: only while no user exists, and with
/// a username of at least 3 bytes and a password of at least 8.
pub fn setup_check(user_count: i64, username: &str, password: &str) -> (r: Result<(), SetupError>)
    ensures
        r == setup_outcome(user_count as int, username.len() as nat, password.len() as nat),
{
    if user_count > 0 {
        Err(SetupError::AlreadyConfigured)
    } else if username.len() < 3 || password.len() < 8 {
        Err(SetupError::TooShort)
    } else {
        Ok(())
    }
}

/// An endpoint can be added only with a name and a base URL.
pub fn endpoint_request_valid(name: &str, base_url: &str) -> (r: bool)
    ensures
        r == (name@.len() > 0 && base_url@.len() > 0),
{
    !name.is_empty() && !base_url.is_empty()
}

/// The prompt a speed test sends when none is given.
pub fn default_prompt() -> (p: String)
    ensures
        p@ == "Write a short story about a robot learning to paint."@,
{
    owned("Write a short story about a robot learning to paint.")
}

/// How many requests a speed test makes when none is given.
pub fn default_iterations() -> (n: usize)
    ensures
        n == 5,
{
    5
}

/// The integer settings of a new speed test, defaults filled in: the prompt,
/// the number of requests (5), the token limit (128) and streaming (off).
pub fn benchmark_settings(
    prompt: Option<String>,
    iterations: Option<usize>,
    max_tokens: Option<u32>,
    stream: Option<bool>,
) -> (r: (String, usize, u32, bool))
    ensures
        r.0@ == (match prompt {
            Some(p) => p@,
            None => "Write a short story about a robot learning to paint."@,
        }),
        r.1 == (match iterations {
            Some(n) => n,
            None => 5,
        }),
        r.2 == (match max_tokens {
            Some(n) => n,
            None => 128,
        }),
        r.3 == (match stream {
            Some(b) => b,
            None => false,
        }),
{
    let p = match prompt {
        Some(p) => p,
        None => default_prompt(),
    };
    let n = match iterations {
        Some(n) => n,
        None => default_iterations(),
    };
    let t = match max_tokens {
        Some(t) => t,
        None => 128,
    };
    let s = match stream {
        Some(b) => b,
        None => false,
    };
    (p, n, t, s)
}

/// The harness names a new evaluation run may ask for.
pub open spec fn known_harnesses() -> Seq<Seq<char>> {
    seq![
        "micro_swe"@, "tbench"@, "deepswe"@, "opencode"@, "tau2_telecom"@, "tau2_retail"@,
        "tau2_airline"@, "tau2_mock"@, "livecodebench"@, "swebench"@, "toolathlon"@,
        "frontierswe"@, "osworld"@, "perf_takehome"@,
    ]
}

/// Every task that the worker can dispatch to a harness is one that a new
/// evaluation run may ask for.
pub proof fn lemma_dispatchable_tasks_are_known(task: Seq<char>)
    ensures
        crate::harness::harness_named(task) is Some ==> known_harnesses().contains(task),
{
    let k = known_harnesses();
    if crate::harness::harness_named(task) is Some {
        let i: int = if task == "micro_swe"@ { 0 }
            else if task == "tbench"@ { 1 }
            else if task == "deepswe"@ { 2 }
            else if task == "tau2_telecom"@ { 4 }
            else if task == "tau2_retail"@ { 5 }
            else if task == "tau2_airline"@ { 6 }
            else if task == "tau2_mock"@ { 7 }
            else if task == "livecodebench"@ { 8 }
            else if task == "swebench"@ { 9 }
            else if task == "toolathlon"@ { 10 }
            else if task == "frontierswe"@ { 11 }
            else { 13 };
        assert(k[i] == task);
    }
}

/// The harness names a new evaluation run may ask for, in order.
pub fn known_harness_names() -> (r: Vec<&'static str>)
    ensures
        r@.map_values(|s: &'static str| s@) == known_harnesses(),
{
    let r = vec![
        "micro_swe", "tbench", "deepswe", "opencode", "tau2_telecom", "tau2_retail",
        "tau2_airline", "tau2_mock", "livecodebench", "swebench", "toolathlon", "frontierswe",
        "osworld", "perf_takehome",
    ];
    assert(r@.map_values(|s: &'static str| s@) =~= known_harnesses());
    r
}

/// Whether an evaluation run may be queued for `harness`.
pub fn is_known_harness(harness: &str) -> (r: bool)
    ensures
        r == known_harnesses().contains(harness@),
{
    let names = known_harness_names();
    let ghost views = names@.map_values(|s: &'static str| s@);
    let mut i: usize = 0;
    while i < names.len()
        invariant
            i <= names.len(),
            views == names@.map_values(|s: &'static str| s@),
            views == known_harnesses(),
            forall|j: int| 0 <= j < i ==> views[j] != harness@,
        decreases names.len() - i,
    {
        if str_eq(names[i], harness) {
            assert(views[i as int] == harness@);
            return true;
        }
        i += 1;
    }
    false
}

/// The metrics the leaderboard ranks, in order.
pub open spec fn leaderboard_metric_names() -> Seq<Seq<char>> {
    seq![
        "tps"@, "tg_tps"@, "latency_ms"@, "ttft_ms"@, "score"@, "pass_at_1"@, "rouge_l_f1"@,
        "success_rate"@, "mswe_pass_rate"@, "tau2_avg_reward"@, "lcb_pass_at_1"@,
        "swebench_resolved"@, "toolathlon_score"@, "frontierswe_score"@, "deepswe_reward"@,
        "deepswe_partial"@, "opencode_reward"@, "opencode_partial"@, "tbench_reward"@,
        "perf_speedup"@, "perf_cycles"@, "perf_thresholds"@,
    ]
}

/// The metrics the leaderboard ranks, in order.
pub fn leaderboard_metrics() -> (r: Vec<&'static str>)
    ensures
        r@.map_values(|s: &'static str| s@) == leaderboard_metric_names(),
{
    let r = vec![
        "tps", "tg_tps", "latency_ms", "ttft_ms", "score", "pass_at_1", "rouge_l_f1",
        "success_rate", "mswe_pass_rate", "tau2_avg_reward", "lcb_pass_at_1",
        "swebench_resolved", "toolathlon_score", "frontierswe_score", "deepswe_reward",
        "deepswe_partial", "opencode_reward", "opencode_partial", "tbench_reward",
        "perf_speedup", "perf_cycles", "perf_thresholds",
    ];
    assert(r@.map_values(|s: &'static str| s@) =~= leaderboard_metric_names());
    r
}

/// The number of runs the run list shows: the one asked for, else 50.
pub fn runs_limit(limit: Option<u32>) -> (r: Option<u32>)
    ensures
        r == (match limit {
            Some(n) => Some(n),
            None => Some(50u32),
        }),
{
    match limit {
        Some(n) => Some(n),
        None => Some(50),
    }
}

/// The columns of a run, in the order `row_to_run` reads them.
pub open spec fn run_columns() -> Seq<char> {
    "SELECT id, machine_id, endpoint_id, kind, task, model_id, model_label, model_path, config, status, stdout, error, created_at, started_at, finished_at FROM runs"@
}

/// The start of every query that reads runs: their columns, in the order
/// `row_to_run` reads them.
pub fn runs_columns() -> (q: &'static str)
    ensures
        q@ == run_columns(),
{
    "SELECT id, machine_id, endpoint_id, kind, task, model_id, model_label, model_path, config, status, stdout, error, created_at, started_at, finished_at FROM runs"
}

/// The query that lists runs, newest first, at most `limit` of them.
pub fn runs_query(limit: Option<u32>) -> (q: String)
    ensures
        q@ == run_columns() + " ORDER BY id DESC"@ + (match limit {
            Some(n) => " LIMIT "@ + decimal(n as nat),
            None => Seq::empty(),
        }),
{
    let mut q = owned("SELECT id, machine_id, endpoint_id, kind, task, model_id, model_label, model_path, config, status, stdout, error, created_at, started_at, finished_at FROM runs");
    q.push_str(" ORDER BY id DESC");
    match limit {
        Some(n) => {
            q.push_str(" LIMIT ");
            push_decimal(&mut q, n as u64);
        },
        None => {
            assert(q@ + Seq::<char>::empty() == q@);
        },
    }
    q
}

/// The provider an endpoint is stored with: the one given, else `generic`.
pub fn provider_or_generic(provider: Option<&str>) -> (r: String)
    ensures
        r@ == (match provider {
            Some(p) => p@,
            None => "generic"@,
        }),
{
    match provider {
        Some(p) => owned(p),
        None => owned("generic"),
    }
}

} // verus!

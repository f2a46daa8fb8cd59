//! The queue worker's decisions: what a claimed run is dispatched to, and
//! the status it ends in.

use vstd::prelude::*;

use crate::text::{owned, push_signed_decimal, signed_decimal, str_eq};

verus! {

/// The work a claimed run is handed to.
#[derive(Debug, Clone, Copy, PartialEq, Eq, Structural)]
pub enum Job {
    /// a speed test against the endpoint over HTTP
    HttpBench,
    /// an evaluation harness (a blocking subprocess)
    Harness,
}

/// The message for a run without an endpoint.
pub open spec fn no_endpoint_message(run_id: int) -> Seq<char> {
    "Run #"@ + signed_decimal(run_id) + " has no endpoint_id — legacy machine-based runs are no longer supported"@
}

/// Where a claimed run goes: a run without an endpoint fails, a `bench`
/// run is a speed test, anything else an evaluation.
pub open spec fn job_of(run_id: int, kind: Seq<char>, has_endpoint: bool) -> Result<Job, Seq<char>> {
    if !has_endpoint {
        Err(no_endpoint_message(run_id))
    } else if kind == "bench"@ {
        Ok(Job::HttpBench)
    } else {
        Ok(Job::Harness)
    }
}

/// Decides where a claimed run goes.
pub fn plan_run(run_id: i64, kind: &str, has_endpoint: bool) -> (r: Result<Job, String>)
    ensures
        match r {
            Ok(j) => job_of(run_id as int, kind@, has_endpoint) == Ok::<Job, Seq<char>>(j),
            Err(e) => job_of(run_id as int, kind@, has_endpoint) == Err::<Job, Seq<char>>(e@),
        },
{
    if !has_endpoint {
        let mut e = owned("Run #");
        push_signed_decimal(&mut e, run_id);
        e.push_str(" has no endpoint_id — legacy machine-based runs are no longer supported");
        Err(e)
    } else if str_eq(kind, "bench") {
        Ok(Job::HttpBench)
    } else {
        Ok(Job::Harness)
    }
}

/// How the worker's log names where a run goes: `endpoint <name>`, or
/// `run #<id>` without an endpoint.
pub fn run_location(run_id: i64, endpoint_name: Option<&str>) -> (r: String)
    ensures
        r@ == (match endpoint_name {
            Some(n) => "endpoint "@ + n@,
            None => "run #"@ + signed_decimal(run_id as int),
        }),
{
    match endpoint_name {
        Some(n) => {
            let mut r = owned("endpoint ");
            r.push_str(n);
            r
        },
        None => {
            let mut r = owned("run #");
            push_signed_decimal(&mut r, run_id);
            r
        },
    }
}

} // verus!

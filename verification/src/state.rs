//! The records that the backend keeps: machines, runs, users, endpoints, and
//! the life cycle of a run's status.

use vstd::prelude::*;
use crate::server::opt_view;
use crate::text::{chars_of, owned, starts_with, str_eq, string_of, strip_prefix};

verus! {

/// A machine row (kept for the read-only compatibility listing).
#[derive(Debug, Clone)]
pub struct Machine {
    pub id: i64,
    pub name: String,
    pub host: String,
    pub ssh_port: u16,
    pub ssh_user: Option<String>,
    pub ssh_key: Option<String>,
    pub gpu_type: String,
    pub lib_path: Option<String>,
    pub is_local: bool,
    pub description: Option<String>,
    pub last_seen: Option<String>,
}

/// Where a run stands: queued, claimed by the worker, finished or failed.
#[derive(Debug, Clone, PartialEq, Eq, Structural)]
pub enum RunStatus {
    Queued,
    Running,
    Done,
    Failed,
}

/// The text under which a status is stored.
pub open spec fn status_text(s: RunStatus) -> Seq<char> {
    match s {
        RunStatus::Queued => "queued"@,
        RunStatus::Running => "running"@,
        RunStatus::Done => "done"@,
        RunStatus::Failed => "failed"@,
    }
}

/// The status that a stored text reads as: the three other names are
/// recognised, anything else reads as queued.
pub open spec fn status_of_text(t: Seq<char>) -> RunStatus {
    if t == "running"@ {
        RunStatus::Running
    } else if t == "done"@ {
        RunStatus::Done
    } else if t == "failed"@ {
        RunStatus::Failed
    } else {
        RunStatus::Queued
    }
}

impl RunStatus {
    /// The stored name of the status.
    pub fn as_str(&self) -> (r: &'static str)
        ensures
            r@ == status_text(*self),
    {
        match self {
            RunStatus::Queued => "queued",
            RunStatus::Running => "running",
            RunStatus::Done => "done",
            RunStatus::Failed => "failed",
        }
    }

    /// Reads a stored status name; an unknown name reads as `Queued`.
    pub fn from_str(s: &str) -> (r: RunStatus)
        ensures
            r == status_of_text(s@),
    {
        if str_eq(s, "running") {
            RunStatus::Running
        } else if str_eq(s, "done") {
            RunStatus::Done
        } else if str_eq(s, "failed") {
            RunStatus::Failed
        } else {
            RunStatus::Queued
        }
    }
}

/// Reading back the stored name of a status gives that status.
pub proof fn lemma_status_round_trip(s: RunStatus)
    ensures
        status_of_text(status_text(s)) == s,
{
    reveal_strlit("queued");
    reveal_strlit("running");
    reveal_strlit("done");
    reveal_strlit("failed");
    assert("queued"@.len() == 6);
    assert("running"@.len() == 7);
    assert("done"@.len() == 4);
    assert("failed"@.len() == 6);
    assert("queued"@[0] != "failed"@[0]);
}

/// Two statuses with the same stored name are the same status.
pub proof fn lemma_status_text_injective(a: RunStatus, b: RunStatus)
    ensures
        status_text(a) == status_text(b) ==> a == b,
{
    lemma_status_round_trip(a);
    lemma_status_round_trip(b);
}

/// The worker's moves of a run: it claims a queued run, then finishes it as
/// done or failed.  No other change of status is made.
pub open spec fn status_step(from: RunStatus, to: RunStatus) -> bool {
    ||| from == RunStatus::Queued && to == RunStatus::Running
    ||| from == RunStatus::Running && to == RunStatus::Done
    ||| from == RunStatus::Running && to == RunStatus::Failed
}

/// A finished status (done or failed) has no step out of it.
pub open spec fn is_final(s: RunStatus) -> bool {
    s == RunStatus::Done || s == RunStatus::Failed
}

/// The status a claimed run ends in, given whether its work succeeded.
pub fn finished_status(succeeded: bool) -> (r: RunStatus)
    ensures
        r == (if succeeded { RunStatus::Done } else { RunStatus::Failed }),
        status_step(RunStatus::Running, r),
        is_final(r),
{
    if succeeded {
        RunStatus::Done
    } else {
        RunStatus::Failed
    }
}

/// A finished run never moves again, and a step never leads back to
/// `Queued`.
pub proof fn lemma_final_is_terminal(from: RunStatus, to: RunStatus)
    ensures
        is_final(from) ==> !status_step(from, to),
        status_step(from, to) ==> to != RunStatus::Queued,
{
}

/// A queued benchmark or evaluation.
#[derive(Debug, Clone)]
pub struct Run {
    pub id: i64,
    pub machine_id: i64,
    pub endpoint_id: Option<i64>,
    /// "bench" or "eval"
    pub kind: String,
    /// the harness or benchmark name
    pub task: String,
    pub model_id: i64,
    pub model_label: String,
    pub model_path: String,
    /// JSON text of the run's parameters
    pub config: String,
    pub status: RunStatus,
    pub stdout: Option<String>,
    pub error: Option<String>,
    pub created_at: String,
    pub started_at: Option<String>,
    pub finished_at: Option<String>,
}

/// A user account (the admin).
#[derive(Debug, Clone)]
pub struct User {
    pub id: i64,
    pub username: String,
}

/// An OpenAI-compatible inference server that runs are sent to.
#[derive(Debug, Clone)]
pub struct EvalEndpoint {
    pub id: i64,
    pub name: String,
    pub base_url: String,
    pub api_key: Option<String>,
    pub model: Option<String>,
    pub provider: Option<String>,
    pub created_at: String,
}

/// Settings of the desktop shell.
#[derive(Debug, Clone)]
pub struct AppConfig {
    pub close_to_tray: bool,
}

impl Default for AppConfig {
    fn default() -> (r: Self)
        ensures
            r.close_to_tray == false,
    {
        AppConfig { close_to_tray: false }
    }
}

/// The database file a `DATABASE_URL` names: the URL without a leading
/// `sqlite://`.
pub fn database_path(url: &str) -> (r: String)
    ensures
        r@ == (match strip_prefix(url@, "sqlite://"@) {
            Some(p) => p,
            None => url@,
        }),
{
    let v = chars_of(url);
    let pre = chars_of("sqlite://");
    if starts_with(&v, &pre) {
        string_of(&v, pre.len(), v.len())
    } else {
        owned(url)
    }
}

/// Where the backend keeps its data.
#[derive(Debug)]
pub enum DataDir {
    /// the directory `BACKYARD_DATA_DIR` names
    Given(String),
    /// the directory of the database file `DATABASE_URL` names
    DatabaseDir(String),
    /// `.backyard` under this home directory
    UnderHome(String),
}

/// The value of a data directory choice.
pub enum DataDirView {
    Given(Seq<char>),
    DatabaseDir(Seq<char>),
    UnderHome(Seq<char>),
}

impl View for DataDir {
    type V = DataDirView;

    open spec fn view(&self) -> DataDirView {
        match self {
            DataDir::Given(d) => DataDirView::Given(d@),
            DataDir::DatabaseDir(d) => DataDirView::DatabaseDir(d@),
            DataDir::UnderHome(h) => DataDirView::UnderHome(h@),
        }
    }
}

/// The data directory: `BACKYARD_DATA_DIR` when it is set; else the
/// directory of the `DATABASE_URL` file when that has a non-empty one
/// (`db_parent`); else `.backyard` under the home directory; none when no
/// home directory is set either.
pub open spec fn data_dir_of(dir_var: Option<Seq<char>>, db_parent: Option<Seq<char>>, home: Option<Seq<char>>) -> Option<DataDirView> {
    match dir_var {
        Some(d) => Some(DataDirView::Given(d)),
        None => if db_parent matches Some(p) && p.len() > 0 {
            Some(DataDirView::DatabaseDir(db_parent->0))
        } else {
            match home {
                Some(h) => Some(DataDirView::UnderHome(h)),
                None => None,
            }
        },
    }
}

/// Chooses the data directory from `BACKYARD_DATA_DIR`, the directory of
/// the `DATABASE_URL` file, and the home directory.
pub fn data_dir_choice(dir_var: Option<&str>, db_parent: Option<&str>, home: Option<&str>) -> (r: Option<DataDir>)
    ensures
        match r {
            Some(d) => data_dir_of(opt_view(dir_var), opt_view(db_parent), opt_view(home)) == Some(d@),
            None => data_dir_of(opt_view(dir_var), opt_view(db_parent), opt_view(home)) is None,
        },
{
    match dir_var {
        Some(d) => Some(DataDir::Given(owned(d))),
        None => {
            let parent_ok = match db_parent {
                Some(p) => !p.is_empty(),
                None => false,
            };
            if parent_ok {
                match db_parent {
                    Some(p) => Some(DataDir::DatabaseDir(owned(p))),
                    None => None,
                }
            } else {
                match home {
                    Some(h) => Some(DataDir::UnderHome(owned(h))),
                    None => None,
                }
            }
        },
    }
}

} // verus!

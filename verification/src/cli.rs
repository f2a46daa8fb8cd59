//! The command-line tool: its commands and the service management steps
//! they stand for.

use vstd::prelude::*;

use crate::harness::{push_text, texts};
use crate::json::{write_json, Json, JsonView, json_written, members_view, lemma_members_view};
use crate::text::owned;

verus! {

/// The command line: a subcommand, or none to start the server.
#[derive(Debug)]
pub struct Cli {
    pub command: Option<Commands>,
}

/// The subcommands.
#[derive(Debug)]
pub enum Commands {
    /// query and list available models
    Models,
    /// manage the backyard systemd service
    Service { action: ServiceAction },
    /// download a model via the API
    Download { repo_id: String, filename: String },
}

/// What the service subcommand does.
#[derive(Debug, Clone, Copy, PartialEq, Eq, Structural)]
pub enum ServiceAction {
    /// install the systemd user service
    Install,
    /// start the service
    Start,
    /// stop the service
    Stop,
    /// show service status
    Status,
    /// show service logs
    Log,
}

/// How a service action is carried out.
#[derive(Debug, Clone, Copy)]
pub enum ServiceStep {
    /// write the unit file and reload systemd
    InstallUnit,
    /// run `systemctl --user <verb> backyard.service`
    Systemctl(&'static str),
    /// follow the service's journal
    TailLogs,
}

/// The step of each action.
pub open spec fn step_of(action: ServiceAction) -> (int, Seq<char>) {
    match action {
        ServiceAction::Install => (0, Seq::empty()),
        ServiceAction::Start => (1, "start"@),
        ServiceAction::Stop => (1, "stop"@),
        ServiceAction::Status => (1, "status"@),
        ServiceAction::Log => (2, Seq::empty()),
    }
}

/// The shape of a step: which kind, and the systemctl verb.
pub open spec fn step_view(s: ServiceStep) -> (int, Seq<char>) {
    match s {
        ServiceStep::InstallUnit => (0, Seq::empty()),
        ServiceStep::Systemctl(v) => (1, v@),
        ServiceStep::TailLogs => (2, Seq::empty()),
    }
}

/// Decides how a service action is carried out.
pub fn handle_service_action(action: ServiceAction) -> (r: ServiceStep)
    ensures
        step_view(r) == step_of(action),
{
    match action {
        ServiceAction::Install => ServiceStep::InstallUnit,
        ServiceAction::Start => ServiceStep::Systemctl("start"),
        ServiceAction::Stop => ServiceStep::Systemctl("stop"),
        ServiceAction::Status => ServiceStep::Systemctl("status"),
        ServiceAction::Log => ServiceStep::TailLogs,
    }
}

/// `systemctl`'s arguments for a verb.
pub fn systemctl_args(verb: &str) -> (r: Vec<String>)
    ensures
        texts(r@) == seq!["--user"@, verb@, "backyard.service"@],
{
    let mut r: Vec<String> = Vec::new();
    push_text(&mut r, "--user");
    push_text(&mut r, verb);
    push_text(&mut r, "backyard.service");
    r
}

/// The error of a systemctl run that did not succeed.
pub fn systemctl_failure(verb: &str) -> (r: String)
    ensures
        r@ == "systemctl "@ + verb@ + " failed"@,
{
    let mut r = owned("systemctl ");
    r.push_str(verb);
    r.push_str(" failed");
    r
}

/// `systemctl`'s arguments to reload user units.
pub fn daemon_reload_args() -> (r: Vec<String>)
    ensures
        texts(r@) == seq!["--user"@, "daemon-reload"@],
{
    let mut r: Vec<String> = Vec::new();
    push_text(&mut r, "--user");
    push_text(&mut r, "daemon-reload");
    r
}

/// `journalctl`'s arguments to follow the service's log.
pub fn journalctl_args() -> (r: Vec<String>)
    ensures
        texts(r@) == seq!["--user"@, "-u"@, "backyard.service"@, "-f"@],
{
    let mut r: Vec<String> = Vec::new();
    push_text(&mut r, "--user");
    push_text(&mut r, "-u");
    push_text(&mut r, "backyard.service");
    push_text(&mut r, "-f");
    r
}

/// The directory of systemd user units under a home directory.
pub fn service_dir(home: &str) -> (r: String)
    ensures
        r@ == home@ + "/.config/systemd/user"@,
{
    let mut r = owned(home);
    r.push_str("/.config/systemd/user");
    r
}

/// The unit file's path in that directory.
pub fn service_path(dir: &str) -> (r: String)
    ensures
        r@ == dir@ + "/backyard.service"@,
{
    let mut r = owned(dir);
    r.push_str("/backyard.service");
    r
}

/// The unit file that runs `exe` from `cwd` and restarts it always.
pub open spec fn unit_text(exe: Seq<char>, cwd: Seq<char>) -> Seq<char> {
    "[Unit]\nDescription=Backyard Backend Service\nAfter=network.target\n\n[Service]\nExecStart="@
        + exe + "\nWorkingDirectory="@ + cwd + "\nRestart=always\n\n[Install]\nWantedBy=default.target\n"@
}

/// Writes the unit file.
pub fn service_unit_text(exe: &str, cwd: &str) -> (r: String)
    ensures
        r@ == unit_text(exe@, cwd@),
{
    let mut r = owned("[Unit]\nDescription=Backyard Backend Service\nAfter=network.target\n\n[Service]\nExecStart=");
    r.push_str(exe);
    r.push_str("\nWorkingDirectory=");
    r.push_str(cwd);
    r.push_str("\nRestart=always\n\n[Install]\nWantedBy=default.target\n");
    r
}

/// The body of a download request: `{"filename": .., "repo_id": ..}`.
pub fn download_request_body(repo_id: &str, filename: &str) -> (r: String)
    ensures
        r@ == json_written(JsonView::Object(seq![
            ("filename"@, JsonView::Str(filename@)),
            ("repo_id"@, JsonView::Str(repo_id@)),
        ])),
{
    let mut m: Vec<(String, Json)> = Vec::new();
    m.push((owned("filename"), Json::Str(owned(filename))));
    m.push((owned("repo_id"), Json::Str(owned(repo_id))));
    proof {
        lemma_members_view(m@);
        assert(members_view(m@) =~= seq![
            ("filename"@, JsonView::Str(filename@)),
            ("repo_id"@, JsonView::Str(repo_id@)),
        ]);
    }
    write_json(&Json::Object(m))
}

} // verus!

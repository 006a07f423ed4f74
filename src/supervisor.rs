//! The supervised-process slot and the decisions of Start and Stop. Spawning
//! the child and running the termination command happen outside; their
//! results come back here.
use vstd::prelude::*;
use vstd::string::*;
use crate::messages::BroadcastLog;
use crate::text::{append_decimal, decimal};

verus! {

/// How the termination command for a pid went.
pub enum KillOutcome {
    /// The command ran and reported success.
    Succeeded,
    /// The command ran and failed; holds what it wrote to its error stream.
    Failed(String),
    /// The command could not be run at all; holds the reason.
    NotRun(String),
}

/// The status that Stop reports.
#[derive(PartialEq, Eq, Structural, Clone, Copy, Debug)]
pub enum StopStatus {
    Stopped,
    AlreadyStopped,
    Failed,
}

/// The answer to a Stop request: its status, the text for the caller, and the
/// notice to publish to subscribers, if any.
pub struct StopReply {
    pub status: StopStatus,
    pub body: String,
    pub notice: Option<BroadcastLog>,
}

/// The decimal pid, or `no pid` where the child reported none.
pub open spec fn pid_text(p: Option<u32>) -> Seq<char> {
    match p {
        Some(n) => decimal(n as nat),
        None => "no pid"@,
    }
}

pub open spec fn started_text(p: Option<u32>) -> Seq<char> {
    "Server started (PID: "@ + pid_text(p) + ")"@
}

pub open spec fn start_error_text(reason: Seq<char>) -> Seq<char> {
    "Error starting server: "@ + reason
}

pub open spec fn kill_command_text(pid: u32) -> Seq<char> {
    "kill -9 "@ + decimal(pid as nat)
}

pub open spec fn stopped_text(pid: u32) -> Seq<char> {
    "Server stopped successfully. (PID: "@ + decimal(pid as nat) + ")"@
}

pub open spec fn stop_failed_text(pid: u32, detail: Seq<char>) -> Seq<char> {
    "Failed to stop server (PID: "@ + decimal(pid as nat) + ". Error: "@ + detail
}

pub open spec fn kill_not_run_text(reason: Seq<char>) -> Seq<char> {
    "Failed to execute kill command: "@ + reason
}

pub open spec fn already_stopped_text() -> Seq<char> {
    "Server is already stopped or was never started."@
}

/// The slot after a spawn attempt: a spawned child's pid replaces whatever
/// was recorded; a failed spawn leaves the slot as it was.
pub open spec fn spawned_slot(slot: Option<u32>, spawned: Result<Option<u32>, String>) -> Option<
    u32,
> {
    match spawned {
        Ok(p) => p,
        Err(_) => slot,
    }
}

/// The pid that a Stop on `slot` terminates; `None` means nothing is
/// terminated.
pub open spec fn stop_target(slot: Option<u32>) -> Option<u32> {
    slot
}

/// The slot after the termination command for `pid` went as `outcome`:
/// kept on success, `pid` put back on failure so that Stop can be retried.
pub open spec fn slot_after_kill(slot: Option<u32>, pid: u32, outcome: KillOutcome) -> Option<u32> {
    match outcome {
        KillOutcome::Succeeded => slot,
        _ => Some(pid),
    }
}

pub open spec fn status_after_kill(outcome: KillOutcome) -> StopStatus {
    match outcome {
        KillOutcome::Succeeded => StopStatus::Stopped,
        _ => StopStatus::Failed,
    }
}

/// The text for the caller of a Stop whose termination command for `pid`
/// went as `outcome`.
pub open spec fn kill_reply_text(pid: u32, outcome: KillOutcome) -> Seq<char> {
    match outcome {
        KillOutcome::Succeeded => stopped_text(pid),
        KillOutcome::Failed(e) => stop_failed_text(pid, e@),
        KillOutcome::NotRun(e) => kill_not_run_text(e@),
    }
}

/// The notice published after that Stop: `[INFO]: ` before a success text,
/// `[ERR]: ` before a failure text.
pub open spec fn kill_notice_text(pid: u32, outcome: KillOutcome) -> Seq<char> {
    match outcome {
        KillOutcome::Succeeded => "[INFO]: "@ + kill_reply_text(pid, outcome),
        _ => "[ERR]: "@ + kill_reply_text(pid, outcome),
    }
}

/// The single slot for the supervised process: the pid of the running child,
/// if one is recorded.
pub struct ProcessSlot {
    pid: Option<u32>,
}

impl ProcessSlot {
    pub closed spec fn view(&self) -> Option<u32> {
        self.pid
    }

    /// An empty slot: nothing is running.
    pub fn new() -> (r: ProcessSlot)
        ensures
            r@ == None::<u32>,
    {
        ProcessSlot { pid: None }
    }

    /// The recorded pid.
    pub fn pid(&self) -> (r: Option<u32>)
        ensures
            r == self@,
    {
        self.pid
    }

    /// Whether a process is recorded as running.
    pub fn is_running(&self) -> (r: bool)
        ensures
            r == self@ is Some,
    {
        self.pid.is_some()
    }

    /// Records the result of a spawn attempt. A spawned child's pid is
    /// recorded, replacing any earlier one, and returned; a spawn failure
    /// leaves the slot unchanged and is returned with its reason.
    pub fn on_spawn(&mut self, spawned: Result<Option<u32>, String>) -> (r: Result<
        Option<u32>,
        String,
    >)
        ensures
            final(self)@ == spawned_slot(old(self)@, spawned),
            spawned is Ok ==> r == Ok::<Option<u32>, String>(spawned->Ok_0),
            spawned is Err ==> r is Err && r->Err_0@ == start_error_text(spawned->Err_0@),
    {
        match spawned {
            Ok(p) => {
                self.pid = p;
                Ok(p)
            },
            Err(reason) => {
                let mut s = String::from_str("Error starting server: ");
                s.append(reason.as_str());
                Err(s)
            },
        }
    }

    /// Takes the recorded pid out of the slot, leaving it empty, so that a
    /// second Stop sees nothing to stop. The result is the pid to terminate,
    /// or `None` where nothing was recorded and nothing is to be terminated.
    pub fn begin_stop(&mut self) -> (r: Option<u32>)
        ensures
            r == stop_target(old(self)@),
            final(self)@ == None::<u32>,
    {
        let p = self.pid;
        self.pid = None;
        p
    }

    /// Completes a Stop whose termination command for `pid` went as
    /// `outcome`. On failure `pid` goes back into the slot.
    pub fn finish_stop(&mut self, pid: u32, outcome: KillOutcome) -> (r: StopReply)
        ensures
            final(self)@ == slot_after_kill(old(self)@, pid, outcome),
            r.status == status_after_kill(outcome),
            r.body@ == kill_reply_text(pid, outcome),
            r.notice is Some,
            r.notice->Some_0.is_error,
            r.notice->Some_0.message@ == kill_notice_text(pid, outcome),
    {
        let (status, body) = match outcome {
            KillOutcome::Succeeded => (StopStatus::Stopped, stopped_message(pid)),
            KillOutcome::Failed(e) => {
                self.pid = Some(pid);
                let mut s = String::from_str("Failed to stop server (PID: ");
                append_decimal(&mut s, pid);
                s.append(". Error: ");
                s.append(e.as_str());
                (StopStatus::Failed, s)
            },
            KillOutcome::NotRun(e) => {
                self.pid = Some(pid);
                let mut s = String::from_str("Failed to execute kill command: ");
                s.append(e.as_str());
                (StopStatus::Failed, s)
            },
        };
        let mut notice = if status == StopStatus::Stopped {
            String::from_str("[INFO]: ")
        } else {
            String::from_str("[ERR]: ")
        };
        notice.append(body.as_str());
        StopReply { status, body, notice: Some(BroadcastLog::new(notice, true)) }
    }
}

/// The reply to a Stop that found no pid: success, nothing terminated,
/// nothing published.
pub fn already_stopped() -> (r: StopReply)
    ensures
        r.status == StopStatus::AlreadyStopped,
        r.body@ == already_stopped_text(),
        r.notice is None,
{
    StopReply {
        status: StopStatus::AlreadyStopped,
        body: String::from_str("Server is already stopped or was never started."),
        notice: None,
    }
}

/// The text reported to the caller of a successful Start.
pub fn started_message(pid: Option<u32>) -> (r: String)
    ensures
        r@ == started_text(pid),
{
    let mut s = String::from_str("Server started (PID: ");
    match pid {
        Some(n) => append_decimal(&mut s, n),
        None => s.append("no pid"),
    }
    s.append(")");
    s
}

/// The text of a successful Stop of `pid`.
pub fn stopped_message(pid: u32) -> (r: String)
    ensures
        r@ == stopped_text(pid),
{
    let mut s = String::from_str("Server stopped successfully. (PID: ");
    append_decimal(&mut s, pid);
    s.append(")");
    s
}

/// The shell command that forcefully terminates `pid`.
pub fn kill_command(pid: u32) -> (r: String)
    ensures
        r@ == kill_command_text(pid),
{
    let mut s = String::from_str("kill -9 ");
    append_decimal(&mut s, pid);
    s
}

impl StopStatus {
    /// `stopped`, `already-stopped` or `failed`.
    pub fn label(&self) -> (r: String)
        ensures
            *self == StopStatus::Stopped ==> r@ == "stopped"@,
            *self == StopStatus::AlreadyStopped ==> r@ == "already-stopped"@,
            *self == StopStatus::Failed ==> r@ == "failed"@,
    {
        match self {
            StopStatus::Stopped => String::from_str("stopped"),
            StopStatus::AlreadyStopped => String::from_str("already-stopped"),
            StopStatus::Failed => String::from_str("failed"),
        }
    }
}

/// A Start that spawns a child with pid `p`, whatever the slot held, makes
/// the next Stop target exactly `p`; when that termination succeeds the Stop
/// reports `stopped` and the slot is left empty.
pub proof fn lemma_start_then_stop(slot: Option<u32>, p: u32, reason: String)
    ensures
        stop_target(spawned_slot(slot, Ok(Some(p)))) == Some(p),
        status_after_kill(KillOutcome::Succeeded) == StopStatus::Stopped,
        slot_after_kill(None, p, KillOutcome::Succeeded) == None::<u32>,
        spawned_slot(slot, Err(reason)) == slot,
{
}

/// A Stop on a slot where nothing was ever started finds no pid, so it
/// terminates nothing and reports `already-stopped`.
pub proof fn lemma_stop_never_started()
    ensures
        stop_target(None) == None::<u32>,
{
}

/// A Stop whose termination fails puts the pid back: the next Stop targets
/// the same pid again.
pub proof fn lemma_failed_stop_retries(slot: Option<u32>, pid: u32, outcome: KillOutcome)
    requires
        !(outcome is Succeeded),
    ensures
        stop_target(slot_after_kill(slot, pid, outcome)) == Some(pid),
        status_after_kill(outcome) == StopStatus::Failed,
{
}

} // verus!

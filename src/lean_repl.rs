//! The decisions of the request correlator and of the process supervisor.
//!
//! One request exchange is a state machine: the embedding code performs each
//! action (start the process, serialize, write, wait, parse) and hands back
//! what came of it as the next event.
use vstd::prelude::*;
use vstd::string::*;

use crate::json_rpc::JsonRpcResponse;

verus! {

/// Errors of the bridge.
#[derive(Clone, Debug, PartialEq, Eq)]
pub enum LeanReplError {
    StartFailed(String),
    NotRunning,
    SendFailed(String),
    ReceiveFailed(String),
    Timeout,
    InvalidJson(String),
    Io(String),
}

/// The text that describes an error to a user.
pub open spec fn error_text(e: LeanReplError) -> Seq<char> {
    match e {
        LeanReplError::StartFailed(m) => "Failed to start Lean REPL: "@ + m@,
        LeanReplError::NotRunning => "Lean REPL is not running"@,
        LeanReplError::SendFailed(m) => "Failed to send request to Lean REPL: "@ + m@,
        LeanReplError::ReceiveFailed(m) => "Failed to receive response from Lean REPL: "@ + m@,
        LeanReplError::Timeout => "Timeout waiting for Lean REPL response"@,
        LeanReplError::InvalidJson(m) => "Invalid JSON response: "@ + m@,
        LeanReplError::Io(m) => "IO error: "@ + m@,
    }
}

impl LeanReplError {
    /// The text that describes this error to a user.
    pub fn message(&self) -> (r: String)
        ensures
            r@ == error_text(*self),
    {
        match self {
            LeanReplError::StartFailed(m) => String::from_str("Failed to start Lean REPL: ").concat(m.as_str()),
            LeanReplError::NotRunning => String::from_str("Lean REPL is not running"),
            LeanReplError::SendFailed(m) => String::from_str("Failed to send request to Lean REPL: ").concat(m.as_str()),
            LeanReplError::ReceiveFailed(m) => String::from_str("Failed to receive response from Lean REPL: ").concat(m.as_str()),
            LeanReplError::Timeout => String::from_str("Timeout waiting for Lean REPL response"),
            LeanReplError::InvalidJson(m) => String::from_str("Invalid JSON response: ").concat(m.as_str()),
            LeanReplError::Io(m) => String::from_str("IO error: ").concat(m.as_str()),
        }
    }
}

} // verus!

verus! {

/// Upper bound, in seconds, on the wait for the response to one request.
pub const RESPONSE_TIMEOUT_SECS: u64 = 30;

/// Pause, in milliseconds, after the process is spawned, before the messages
/// it sent right away are drained.
pub const SETTLE_DELAY_MS: u64 = 500;

/// Where one request exchange stands.
#[derive(Clone, Copy, Debug, PartialEq, Eq, Structural)]
pub enum SendPhase {
    /// Nothing done yet.
    Idle,
    /// The process was not running and is being started.
    Starting,
    /// The request is being serialized.
    Serializing,
    /// The request text is being handed to the writer.
    Writing,
    /// Waiting, within the bound, for one framed message.
    Awaiting,
    /// The received text is being parsed as a response.
    Parsing,
    /// The exchange has finished.
    Done,
}

/// What came of waiting on the framed messages.
#[derive(Debug, PartialEq, Eq)]
pub enum RecvOutcome {
    /// One framed message arrived within the bound.
    Message(String),
    /// The bound elapsed first.
    Timeout,
    /// The reader side closed: the process is gone.
    Disconnected,
}

/// What the embedding code reports back.
pub enum SendEvent {
    /// The exchange begins; `running` tells whether the process is alive.
    Begin { running: bool },
    /// The implicit start finished.
    StartFinished(Result<(), LeanReplError>),
    /// The request was serialized to its wire text, or could not be.
    Serialized(Result<String, String>),
    /// The text was handed to the writer, or the writer was gone.
    Written(Result<(), String>),
    /// The wait for a framed message ended.
    Received(RecvOutcome),
    /// The received text was parsed as a response, or could not be.
    Parsed(Result<JsonRpcResponse, String>),
}

/// What the embedding code is to do next.
pub enum SendAction {
    /// Start the process.
    Start,
    /// Serialize the request.
    Serialize,
    /// Hand this text, the request and a newline, to the writer.
    Write(String),
    /// Wait at most this many seconds for one framed message.
    Await { timeout_secs: u64 },
    /// Parse this text as a response.
    Parse(String),
    /// The exchange is over, with this outcome.
    Finish(Result<JsonRpcResponse, LeanReplError>),
}

/// The phase that follows `p` on event `e`. An event that the phase does not
/// wait for ends the exchange.
pub open spec fn next_phase(p: SendPhase, e: SendEvent) -> SendPhase {
    match (p, e) {
        (SendPhase::Idle, SendEvent::Begin { running }) => if running {
            SendPhase::Serializing
        } else {
            SendPhase::Starting
        },
        (SendPhase::Starting, SendEvent::StartFinished(Ok(()))) => SendPhase::Serializing,
        (SendPhase::Serializing, SendEvent::Serialized(Ok(_))) => SendPhase::Writing,
        (SendPhase::Writing, SendEvent::Written(Ok(()))) => SendPhase::Awaiting,
        (SendPhase::Awaiting, SendEvent::Received(RecvOutcome::Message(_))) => SendPhase::Parsing,
        _ => SendPhase::Done,
    }
}

/// Whether `a` is the action owed in phase `p` on event `e`.
pub open spec fn action_fits(p: SendPhase, e: SendEvent, a: SendAction) -> bool {
    match (p, e) {
        (SendPhase::Idle, SendEvent::Begin { running }) => if running {
            a is Serialize
        } else {
            a is Start
        },
        (SendPhase::Starting, SendEvent::StartFinished(r)) => match r {
            Ok(()) => a is Serialize,
            Err(err) => a == SendAction::Finish(Err(err)),
        },
        (SendPhase::Serializing, SendEvent::Serialized(r)) => match r {
            Ok(text) => a matches SendAction::Write(w) && w@ == text@ + "\n"@,
            Err(m) => a == SendAction::Finish(Err(LeanReplError::SendFailed(m))),
        },
        (SendPhase::Writing, SendEvent::Written(r)) => match r {
            Ok(()) => a == SendAction::Await { timeout_secs: RESPONSE_TIMEOUT_SECS },
            Err(m) => a == SendAction::Finish(Err(LeanReplError::SendFailed(m))),
        },
        (SendPhase::Awaiting, SendEvent::Received(o)) => match o {
            RecvOutcome::Message(t) => a == SendAction::Parse(t),
            RecvOutcome::Timeout => a == SendAction::Finish(Err(LeanReplError::Timeout)),
            RecvOutcome::Disconnected => a matches SendAction::Finish(Err(LeanReplError::ReceiveFailed(m)))
                && m@ == "REPL disconnected"@,
        },
        (SendPhase::Parsing, SendEvent::Parsed(r)) => match r {
            Ok(resp) => if resp.well_formed() {
                a == SendAction::Finish(Ok(resp))
            } else {
                a matches SendAction::Finish(Err(LeanReplError::InvalidJson(m)))
                    && m@ == "response must carry exactly one of result and error"@
            },
            Err(m) => a == SendAction::Finish(Err(LeanReplError::InvalidJson(m))),
        },
        _ => a == SendAction::Finish(Err(LeanReplError::NotRunning)),
    }
}

/// One step of a request exchange: from the phase and what the last action
/// came to, the next phase and the next action.
pub fn send_step(p: SendPhase, e: SendEvent) -> (r: (SendPhase, SendAction))
    ensures
        r.0 == next_phase(p, e),
        action_fits(p, e, r.1),
{
    match (p, e) {
        (SendPhase::Idle, SendEvent::Begin { running }) => if running {
            (SendPhase::Serializing, SendAction::Serialize)
        } else {
            (SendPhase::Starting, SendAction::Start)
        },
        (SendPhase::Starting, SendEvent::StartFinished(r)) => match r {
            Ok(()) => (SendPhase::Serializing, SendAction::Serialize),
            Err(err) => (SendPhase::Done, SendAction::Finish(Err(err))),
        },
        (SendPhase::Serializing, SendEvent::Serialized(r)) => match r {
            Ok(text) => {
                (SendPhase::Writing, SendAction::Write(text.concat("\n")))
            },
            Err(m) => (SendPhase::Done, SendAction::Finish(Err(LeanReplError::SendFailed(m)))),
        },
        (SendPhase::Writing, SendEvent::Written(r)) => match r {
            Ok(()) => (SendPhase::Awaiting, SendAction::Await { timeout_secs: RESPONSE_TIMEOUT_SECS }),
            Err(m) => (SendPhase::Done, SendAction::Finish(Err(LeanReplError::SendFailed(m)))),
        },
        (SendPhase::Awaiting, SendEvent::Received(o)) => match o {
            RecvOutcome::Message(t) => (SendPhase::Parsing, SendAction::Parse(t)),
            RecvOutcome::Timeout => (SendPhase::Done, SendAction::Finish(Err(LeanReplError::Timeout))),
            RecvOutcome::Disconnected => (
                SendPhase::Done,
                SendAction::Finish(Err(LeanReplError::ReceiveFailed(String::from_str("REPL disconnected")))),
            ),
        },
        (SendPhase::Parsing, SendEvent::Parsed(r)) => match r {
            Ok(resp) => if resp.is_well_formed() {
                (SendPhase::Done, SendAction::Finish(Ok(resp)))
            } else {
                let m = String::from_str("response must carry exactly one of result and error");
                (SendPhase::Done, SendAction::Finish(Err(LeanReplError::InvalidJson(m))))
            },
            Err(m) => (SendPhase::Done, SendAction::Finish(Err(LeanReplError::InvalidJson(m)))),
        },
        _ => (SendPhase::Done, SendAction::Finish(Err(LeanReplError::NotRunning))),
    }
}

} // verus!

verus! {

/// The phase of an exchange after the first `n` of `events`.
pub open spec fn phase_after(events: Seq<SendEvent>, n: int) -> SendPhase
    decreases n,
{
    if n <= 0 {
        SendPhase::Idle
    } else {
        next_phase(phase_after(events, n - 1), events[n - 1])
    }
}

proof fn lemma_never_idle_again(events: Seq<SendEvent>, n: int)
    requires
        n >= 1,
    ensures
        phase_after(events, n) != SendPhase::Idle,
{
}

/// In one exchange the process is started at most once: a start can only be
/// the first action, and it is the first action exactly when the exchange
/// began with the process not running. So every write follows that start.
pub proof fn lemma_single_implicit_start(events: Seq<SendEvent>, actions: Seq<SendAction>)
    requires
        actions.len() == events.len(),
        forall|j: int| 0 <= j < events.len() ==> action_fits(phase_after(events, j), events[j], #[trigger] actions[j]),
    ensures
        forall|j: int| 0 <= j < actions.len() && (#[trigger] actions[j] is Start) ==> j == 0 && events[0] == (SendEvent::Begin { running: false }),
        events.len() > 0 && events[0] == (SendEvent::Begin { running: false }) ==> actions[0] is Start,
{
    assert forall|j: int| 0 <= j < actions.len() && (#[trigger] actions[j] is Start) implies j == 0 && events[0] == (SendEvent::Begin { running: false }) by {
        assert(action_fits(phase_after(events, j), events[j], actions[j]));
        if j >= 1 {
            lemma_never_idle_again(events, j);
        }
    }
    if events.len() > 0 {
        assert(action_fits(phase_after(events, 0), events[0], actions[0]));
    }
}

/// A wait that ends because the bound elapsed never fails the exchange with
/// a receive error; while the exchange awaits its response, it fails with the
/// timeout error.
pub proof fn lemma_timeout_is_not_disconnect(p: SendPhase, a: SendAction)
    requires
        action_fits(p, SendEvent::Received(RecvOutcome::Timeout), a),
    ensures
        a matches SendAction::Finish(Err(e)) && !(e is ReceiveFailed),
        p == SendPhase::Awaiting ==> a == SendAction::Finish(Err(LeanReplError::Timeout)),
{
}

/// A wait that ends because the process went away fails the exchange with a
/// receive error.
pub proof fn lemma_disconnect_is_receive_error(a: SendAction)
    requires
        action_fits(SendPhase::Awaiting, SendEvent::Received(RecvOutcome::Disconnected), a),
    ensures
        a matches SendAction::Finish(Err(e)) && e is ReceiveFailed,
{
}

/// The lifecycle of the external process as the supervisor sees it.
#[derive(Clone, Copy, Debug, PartialEq, Eq, Structural)]
pub enum Lifecycle {
    NotStarted,
    Running,
    Stopped,
    Crashed,
}

/// After a liveness poll that saw the process exit, or not.
pub open spec fn polled(l: Lifecycle, exited: bool) -> Lifecycle {
    if l == Lifecycle::Running && exited {
        Lifecycle::Crashed
    } else {
        l
    }
}

/// After a stop, which is unconditional: whatever there was is torn down.
pub open spec fn stopped(l: Lifecycle) -> Lifecycle {
    Lifecycle::Stopped
}

/// After a start attempt: a no-op when running; otherwise running exactly
/// when the process was spawned with its three streams.
pub open spec fn started(l: Lifecycle, spawned: bool) -> Lifecycle {
    if l == Lifecycle::Running || spawned {
        Lifecycle::Running
    } else {
        l
    }
}

impl Lifecycle {
    pub fn is_running(self) -> (r: bool)
        ensures
            r == (self == Lifecycle::Running),
    {
        self == Lifecycle::Running
    }

    /// Whether a start has to spawn a process.
    pub fn needs_spawn(self) -> (r: bool)
        ensures
            r == (self != Lifecycle::Running),
    {
        self != Lifecycle::Running
    }

    pub fn after_poll(self, exited: bool) -> (r: Lifecycle)
        ensures
            r == polled(self, exited),
    {
        if self == Lifecycle::Running && exited {
            Lifecycle::Crashed
        } else {
            self
        }
    }

    pub fn after_stop(self) -> (r: Lifecycle)
        ensures
            r == stopped(self),
    {
        Lifecycle::Stopped
    }

    pub fn after_start(self, spawned: bool) -> (r: Lifecycle)
        ensures
            r == started(self, spawned),
    {
        if self == Lifecycle::Running || spawned {
            Lifecycle::Running
        } else {
            self
        }
    }
}

/// Whatever state the process was in, crashed mid-request included, a restart
/// that spawns a fresh process leaves it running, and the next exchange goes
/// to that process at once, with no further start.
pub proof fn lemma_restart_recovers(l: Lifecycle, a: SendAction)
    requires
        action_fits(SendPhase::Idle, SendEvent::Begin { running: started(stopped(l), true) == Lifecycle::Running }, a),
    ensures
        started(stopped(l), true) == Lifecycle::Running,
        a is Serialize,
{
}

} // verus!

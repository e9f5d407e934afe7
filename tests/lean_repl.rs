use rust_backend::json_rpc::JsonRpcResponse;
use rust_backend::lean_repl::{
    send_step, LeanReplError, Lifecycle, RecvOutcome, SendAction, SendEvent, SendPhase,
    RESPONSE_TIMEOUT_SECS,
};

fn finish_err(a: SendAction) -> LeanReplError {
    match a {
        SendAction::Finish(Err(e)) => e,
        _ => panic!("expected a failed finish"),
    }
}

#[test]
fn not_running_starts_once_then_sends() {
    let (p, a) = send_step(SendPhase::Idle, SendEvent::Begin { running: false });
    assert_eq!(p, SendPhase::Starting);
    assert!(matches!(a, SendAction::Start));
    let (p, a) = send_step(p, SendEvent::StartFinished(Ok(())));
    assert_eq!(p, SendPhase::Serializing);
    assert!(matches!(a, SendAction::Serialize));
    let (p, a) = send_step(p, SendEvent::Serialized(Ok("{\"id\":1}".to_string())));
    assert_eq!(p, SendPhase::Writing);
    match a {
        SendAction::Write(t) => assert_eq!(t, "{\"id\":1}\n"),
        _ => panic!("expected a write"),
    }
    let (p, a) = send_step(p, SendEvent::Written(Ok(())));
    assert_eq!(p, SendPhase::Awaiting);
    assert!(matches!(a, SendAction::Await { timeout_secs: 30 }));
    assert_eq!(RESPONSE_TIMEOUT_SECS, 30);
}

#[test]
fn running_process_is_not_started() {
    let (p, a) = send_step(SendPhase::Idle, SendEvent::Begin { running: true });
    assert_eq!(p, SendPhase::Serializing);
    assert!(matches!(a, SendAction::Serialize));
}

#[test]
fn start_failure_is_propagated() {
    let (p, a) = send_step(
        SendPhase::Starting,
        SendEvent::StartFinished(Err(LeanReplError::StartFailed("no binary".to_string()))),
    );
    assert_eq!(p, SendPhase::Done);
    assert_eq!(finish_err(a), LeanReplError::StartFailed("no binary".to_string()));
}

#[test]
fn timeout_gives_timeout_error() {
    let (p, a) = send_step(SendPhase::Awaiting, SendEvent::Received(RecvOutcome::Timeout));
    assert_eq!(p, SendPhase::Done);
    assert_eq!(finish_err(a), LeanReplError::Timeout);
}

#[test]
fn disconnect_gives_receive_error() {
    let (p, a) = send_step(SendPhase::Awaiting, SendEvent::Received(RecvOutcome::Disconnected));
    assert_eq!(p, SendPhase::Done);
    assert_eq!(finish_err(a), LeanReplError::ReceiveFailed("REPL disconnected".to_string()));
}

#[test]
fn closed_writer_gives_send_error() {
    let (_, a) = send_step(SendPhase::Writing, SendEvent::Written(Err("sending on a closed channel".to_string())));
    assert_eq!(finish_err(a), LeanReplError::SendFailed("sending on a closed channel".to_string()));
    let (_, a) = send_step(SendPhase::Serializing, SendEvent::Serialized(Err("bad".to_string())));
    assert_eq!(finish_err(a), LeanReplError::SendFailed("bad".to_string()));
}

#[test]
fn received_text_goes_to_parse_then_finishes() {
    let (p, a) = send_step(SendPhase::Awaiting, SendEvent::Received(RecvOutcome::Message("{}".to_string())));
    assert_eq!(p, SendPhase::Parsing);
    match a {
        SendAction::Parse(t) => assert_eq!(t, "{}"),
        _ => panic!("expected a parse"),
    }
    let resp = JsonRpcResponse::success(serde_json::Value::from(1), serde_json::Value::from(2));
    let (p, a) = send_step(SendPhase::Parsing, SendEvent::Parsed(Ok(resp)));
    assert_eq!(p, SendPhase::Done);
    match a {
        SendAction::Finish(Ok(r)) => assert_eq!(r.result, Some(serde_json::Value::from(2))),
        _ => panic!("expected a response"),
    }
}

#[test]
fn application_error_response_is_a_success() {
    let resp = JsonRpcResponse::error(serde_json::Value::from(1), -1, "no".to_string());
    let (_, a) = send_step(SendPhase::Parsing, SendEvent::Parsed(Ok(resp)));
    assert!(matches!(a, SendAction::Finish(Ok(_))));
}

#[test]
fn invalid_responses_are_rejected() {
    let (_, a) = send_step(SendPhase::Parsing, SendEvent::Parsed(Err("expected value".to_string())));
    assert_eq!(finish_err(a), LeanReplError::InvalidJson("expected value".to_string()));
    let mut both = JsonRpcResponse::success(serde_json::Value::from(1), serde_json::Value::from(2));
    both.error = JsonRpcResponse::error(serde_json::Value::from(1), 1, "e".to_string()).error;
    let (_, a) = send_step(SendPhase::Parsing, SendEvent::Parsed(Ok(both)));
    assert!(matches!(finish_err(a), LeanReplError::InvalidJson(_)));
}

#[test]
fn unexpected_event_ends_exchange() {
    let (p, a) = send_step(SendPhase::Idle, SendEvent::Written(Ok(())));
    assert_eq!(p, SendPhase::Done);
    assert_eq!(finish_err(a), LeanReplError::NotRunning);
}

#[test]
fn error_messages() {
    assert_eq!(LeanReplError::Timeout.message(), "Timeout waiting for Lean REPL response");
    assert_eq!(LeanReplError::NotRunning.message(), "Lean REPL is not running");
    assert_eq!(
        LeanReplError::StartFailed("x".to_string()).message(),
        "Failed to start Lean REPL: x"
    );
    assert_eq!(
        LeanReplError::ReceiveFailed("REPL disconnected".to_string()).message(),
        "Failed to receive response from Lean REPL: REPL disconnected"
    );
    assert_eq!(LeanReplError::SendFailed("y".to_string()).message(), "Failed to send request to Lean REPL: y");
    assert_eq!(LeanReplError::InvalidJson("z".to_string()).message(), "Invalid JSON response: z");
    assert_eq!(LeanReplError::Io("w".to_string()).message(), "IO error: w");
}

#[test]
fn lifecycle_transitions() {
    let l = Lifecycle::NotStarted;
    assert!(l.needs_spawn());
    let l = l.after_start(true);
    assert_eq!(l, Lifecycle::Running);
    assert!(!l.needs_spawn());
    assert_eq!(l.after_poll(false), Lifecycle::Running);
    let crashed = l.after_poll(true);
    assert_eq!(crashed, Lifecycle::Crashed);
    assert!(!crashed.is_running());
    assert_eq!(crashed.after_start(false), Lifecycle::Crashed);
    let restarted = crashed.after_stop().after_start(true);
    assert!(restarted.is_running());
    assert_eq!(Lifecycle::Running.after_start(false), Lifecycle::Running);
}

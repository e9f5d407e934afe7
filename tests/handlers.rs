use rust_backend::handlers::health_response;

#[test]
fn health_reports_running() {
    let h = health_response(true);
    assert_eq!(h.status, "ok");
    assert_eq!(h.lean_repl, "running");
}

#[test]
fn health_reports_stopped() {
    let h = health_response(false);
    assert_eq!(h.status, "ok");
    assert_eq!(h.lean_repl, "stopped");
}

//! What the front-ends report about the bridge.
use vstd::prelude::*;
use vstd::string::*;

verus! {

/// The health report: `status` is always `ok`; `lean_repl` is `running` or
/// `stopped`.
#[derive(Clone, Debug)]
pub struct HealthResponse {
    pub status: String,
    pub lean_repl: String,
}

pub open spec fn state_text(running: bool) -> Seq<char> {
    if running {
        "running"@
    } else {
        "stopped"@
    }
}

/// The health report for a bridge whose process is alive or not: it never
/// fails and reflects liveness only.
pub fn health_response(running: bool) -> (r: HealthResponse)
    ensures
        r.status@ == "ok"@,
        r.lean_repl@ == state_text(running),
{
    HealthResponse {
        status: String::from_str("ok"),
        lean_repl: if running {
            String::from_str("running")
        } else {
            String::from_str("stopped")
        },
    }
}

} // verus!

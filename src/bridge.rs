//! What the discovery endpoint and the setup screen report, derived from the
//! supervisor's friendly status and a few plain facts.
use vstd::prelude::*;
use crate::status::{FriendlyStatus, StatusView, message_of};

verus! {

/// The fixed local port of the discovery endpoint.
pub const BRIDGE_PORT: u16 = 19542;
/// Where the runtime's API is reached.
pub const RUNTIME_URL: &'static str = "http://127.0.0.1:11434";

/// The answer of the discovery endpoint's status route.
pub struct BridgeStatus {
    pub app_running: bool,
    pub status: String,
    pub ollama_url: String,
    pub version: String,
    pub ollama_ready: bool,
    pub needs_setup: bool,
}

/// Setup is needed while the runtime is not installed or has no model, or
/// while the first-run flow has not been completed.
pub open spec fn needs_setup_spec(status: StatusView, first_run_complete: bool) -> bool {
    status is NotInstalled || status is ModelMissing || !first_run_complete
}

/// The status route's answer for the given friendly status, runtime health,
/// first-run flag and application version.
pub fn bridge_status(
    friendly: &FriendlyStatus,
    runtime_ready: bool,
    first_run_complete: bool,
    version: &str,
) -> (r: BridgeStatus)
    ensures
        r.app_running,
        r.status@ == message_of(friendly@),
        r.ollama_url@ == RUNTIME_URL@,
        r.version@ == version@,
        r.ollama_ready == runtime_ready,
        r.needs_setup == needs_setup_spec(friendly@, first_run_complete),
{
    let needs_setup = match friendly {
        FriendlyStatus::NotInstalled { .. } => true,
        FriendlyStatus::ModelMissing { .. } => true,
        _ => false,
    } || !first_run_complete;
    BridgeStatus {
        app_running: true,
        status: friendly.message().to_owned(),
        ollama_url: RUNTIME_URL.to_owned(),
        version: version.to_owned(),
        ollama_ready: runtime_ready,
        needs_setup,
    }
}

/// What the setup screen is told.
pub struct SetupStatus {
    pub ollama_installed: bool,
    pub ollama_running: bool,
    pub model_available: bool,
    pub first_run_complete: bool,
}

/// Models are looked for only on a running runtime; `models` is what it
/// listed, when it was asked.
pub fn setup_status(
    installed: bool,
    running: bool,
    models: &Vec<String>,
    first_run_complete: bool,
) -> (r: SetupStatus)
    ensures
        r.ollama_installed == installed,
        r.ollama_running == running,
        r.model_available == (running && models@.len() > 0),
        r.first_run_complete == first_run_complete,
{
    SetupStatus {
        ollama_installed: installed,
        ollama_running: running,
        model_available: running && models.len() > 0,
        first_run_complete,
    }
}

} // verus!

use feelingwise::bridge::{bridge_status, setup_status, BridgeStatus, BRIDGE_PORT, RUNTIME_URL};
use feelingwise::status::FriendlyStatus;

#[test]
fn test_bridge_status_serialization() {
    let status = BridgeStatus {
        app_running: true,
        status: "Protected".to_string(),
        ollama_url: "http://127.0.0.1:11434".to_string(),
        version: "1.0.0".to_string(),
        ollama_ready: true,
        needs_setup: false,
    };
    assert!(status.status.contains("Protected"));
    assert!(status.ollama_url.contains("11434"));
}

#[test]
fn bridge_status_from_running() {
    let b = bridge_status(&FriendlyStatus::running(), true, true, "1.0.0");
    assert!(b.app_running);
    assert_eq!(b.status, "Protected");
    assert_eq!(b.ollama_url, RUNTIME_URL);
    assert_eq!(b.version, "1.0.0");
    assert!(b.ollama_ready);
    assert!(!b.needs_setup);
    assert_eq!(BRIDGE_PORT, 19542);
}

#[test]
fn bridge_status_needs_setup() {
    assert!(bridge_status(&FriendlyStatus::not_installed(), false, true, "1").needs_setup);
    assert!(bridge_status(&FriendlyStatus::model_missing(), true, true, "1").needs_setup);
    assert!(bridge_status(&FriendlyStatus::running(), true, false, "1").needs_setup);
    assert!(!bridge_status(&FriendlyStatus::stopped(), false, true, "1").needs_setup);
    assert_eq!(bridge_status(&FriendlyStatus::not_installed(), false, true, "1").status, "Setup required");
}

#[test]
fn setup_status_reports_models_only_when_running() {
    let models = vec!["phi3:mini".to_string()];
    let s = setup_status(true, true, &models, false);
    assert!(s.ollama_installed && s.ollama_running && s.model_available && !s.first_run_complete);
    let s = setup_status(true, false, &models, true);
    assert!(!s.model_available);
    let s = setup_status(false, true, &vec![], true);
    assert!(!s.model_available && !s.ollama_installed);
}

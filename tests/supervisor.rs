use feelingwise::status::FriendlyStatus;
use feelingwise::supervisor::{
    check_model_available, MonitorAction, OllamaSupervisor, StartStep, SupervisorConfig, SupervisorError,
    SupervisorState,
};

fn running_supervisor() -> OllamaSupervisor {
    let mut s = OllamaSupervisor::new(SupervisorConfig::default());
    assert_eq!(s.begin_start(false, true), Ok(StartStep::Spawn));
    assert_eq!(s.get_state(), SupervisorState::Starting);
    assert_eq!(s.finish_start(true), Ok(()));
    assert_eq!(s.get_state(), SupervisorState::Running);
    s
}

fn message(s: &FriendlyStatus) -> String {
    s.message().to_string()
}

#[test]
fn default_config() {
    let c = SupervisorConfig::default();
    assert_eq!(c.max_restart_attempts, 3);
    assert_eq!(c.health_check_interval_ms, 5_000);
    assert_eq!(c.startup_timeout_ms, 30_000);
    assert_eq!(c.default_model, "phi3:mini");
    let s = OllamaSupervisor::new(c);
    assert_eq!(s.get_state(), SupervisorState::Stopped);
    assert_eq!(s.restart_count(), 0);
    assert_eq!(s.startup_poll_attempts(), 60);
}

#[test]
fn start_when_healthy_is_idempotent() {
    let mut s = OllamaSupervisor::new(SupervisorConfig::default());
    assert_eq!(s.begin_start(true, true), Ok(StartStep::AlreadyRunning));
    assert_eq!(s.get_state(), SupervisorState::Running);
    assert_eq!(s.begin_start(true, true), Ok(StartStep::AlreadyRunning));
    assert_eq!(s.get_state(), SupervisorState::Running);
    assert_eq!(s.begin_start(true, false), Ok(StartStep::AlreadyRunning));
}

#[test]
fn start_without_binary_fails_and_keeps_state() {
    let mut s = OllamaSupervisor::new(SupervisorConfig::default());
    assert_eq!(s.begin_start(false, false), Err(SupervisorError::NotInstalled));
    assert_eq!(s.get_state(), SupervisorState::Stopped);
}

#[test]
fn start_timeout_marks_unhealthy() {
    let mut s = OllamaSupervisor::new(SupervisorConfig::default());
    assert_eq!(s.begin_start(false, true), Ok(StartStep::Spawn));
    assert_eq!(s.finish_start(false), Err(SupervisorError::StartupTimeout { seconds: 30 }));
    assert_eq!(s.get_state(), SupervisorState::Unhealthy);
}

#[test]
fn not_installed_overrides_every_state() {
    let mut s = running_supervisor();
    let st = s.get_friendly_status(false, true, Some(true));
    assert_eq!(st.status_tag(), "not_installed");
    s.stop();
    assert_eq!(s.get_friendly_status(false, false, None).status_tag(), "not_installed");
    s.begin_start(false, true).unwrap();
    assert_eq!(s.get_friendly_status(false, false, None).status_tag(), "not_installed");
}

#[test]
fn status_follows_state_and_probes() {
    let mut s = OllamaSupervisor::new(SupervisorConfig::default());
    assert_eq!(s.get_friendly_status(true, false, None).status_tag(), "stopped");
    assert!(!s.status_needs_probe());
    s.begin_start(false, true).unwrap();
    assert_eq!(s.get_friendly_status(true, false, None).status_tag(), "starting");
    s.finish_start(true).unwrap();
    assert!(s.status_needs_probe());
    assert_eq!(message(&s.get_friendly_status(true, true, Some(true))), "Protected");
    assert_eq!(message(&s.get_friendly_status(true, true, None)), "Protected");
    assert_eq!(s.get_friendly_status(true, true, Some(false)).status_tag(), "model_missing");
    let stale = s.get_friendly_status(true, false, Some(true));
    assert_eq!(stale.status_tag(), "error");
    assert_eq!(message(&stale), "Connection issue. Restarting...");
}

#[test]
fn recovery_gives_up_after_ceiling_and_resumes_after_reset() {
    let mut s = running_supervisor();
    for attempt in 1..=3u32 {
        assert!(s.monitor_should_probe());
        assert_eq!(s.on_monitor_probe(false), MonitorAction::Restart);
        assert_eq!(s.get_state(), SupervisorState::Unhealthy);
        s.stop();
        assert_eq!(s.begin_start(false, true), Ok(StartStep::Spawn));
        assert!(s.finish_start(false).is_err());
        s.record_restart_attempt();
        assert_eq!(s.restart_count(), attempt);
        let st = s.get_friendly_status(true, false, None);
        if attempt < 3 {
            assert_eq!(message(&st), "Reconnecting...");
        } else {
            assert_eq!(message(&st), "Please restart the app");
        }
    }
    assert_eq!(s.on_monitor_probe(false), MonitorAction::GiveUp);
    assert_eq!(message(&s.get_friendly_status(true, false, None)), "Please restart the app");
    s.reset_restart_count();
    assert_eq!(s.restart_count(), 0);
    assert_eq!(s.on_monitor_probe(true), MonitorAction::Healthy);
    assert_eq!(s.get_state(), SupervisorState::Running);
    assert_eq!(message(&s.get_friendly_status(true, true, Some(true))), "Protected");
}

#[test]
fn successful_restart_still_counts_the_attempt_until_next_healthy_probe() {
    let mut s = running_supervisor();
    assert_eq!(s.on_monitor_probe(false), MonitorAction::Restart);
    s.stop();
    s.begin_start(false, true).unwrap();
    s.finish_start(true).unwrap();
    s.record_restart_attempt();
    assert_eq!(s.restart_count(), 1);
    assert_eq!(s.on_monitor_probe(true), MonitorAction::Healthy);
    assert_eq!(s.restart_count(), 0);
}

#[test]
fn monitor_idles_while_stopped() {
    let mut s = running_supervisor();
    s.stop();
    assert_eq!(s.get_state(), SupervisorState::Stopped);
    assert!(!s.monitor_should_probe());
    assert_eq!(s.on_monitor_probe(false), MonitorAction::Idle);
    assert_eq!(s.get_state(), SupervisorState::Stopped);
    assert_eq!(s.restart_count(), 0);
}

#[test]
fn only_one_monitor_is_started() {
    let mut s = OllamaSupervisor::new(SupervisorConfig::default());
    assert!(s.begin_monitoring());
    assert!(!s.begin_monitoring());
}

#[test]
fn model_availability_from_listing() {
    assert!(!check_model_available(&vec![], "phi3:mini"));
    assert!(check_model_available(&vec!["phi3:mini".to_string()], "phi3:mini"));
    assert!(check_model_available(&vec!["llama3:8b".to_string(), "phi3:latest".to_string()], "phi3:mini"));
    assert!(!check_model_available(&vec!["llama3:8b".to_string()], "phi3:mini"));
    assert!(check_model_available(&vec!["llama3:8b".to_string()], "llama3:8b"));
    assert!(!check_model_available(&vec!["llama3:70b".to_string()], "llama3:8b"));
}

#[test]
fn other_model_only_reports_model_missing() {
    let s = running_supervisor();
    let available = check_model_available(&vec!["llama3:8b".to_string()], &s.get_config().default_model);
    assert!(!available);
    assert_eq!(s.get_friendly_status(true, true, Some(available)).status_tag(), "model_missing");
    let available = check_model_available(&vec!["phi3:mini".to_string()], &s.get_config().default_model);
    assert_eq!(s.get_friendly_status(true, true, Some(available)).status_tag(), "running");
}

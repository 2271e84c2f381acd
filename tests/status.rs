use feelingwise::status::FriendlyStatus;

#[test]
fn test_friendly_status_serialization() {
    let status = FriendlyStatus::running();
    assert!(status.status_tag().contains("running"));
    assert!(status.message().contains("Protected"));
}

#[test]
fn test_not_installed_status() {
    let status = FriendlyStatus::not_installed();
    assert!(status.status_tag().contains("not_installed"));
    match &status {
        FriendlyStatus::NotInstalled { download_url, .. } => assert!(download_url.contains("ollama.ai")),
        _ => panic!("expected the not-installed status"),
    }
}

#[test]
fn status_constructors_carry_their_messages() {
    assert_eq!(FriendlyStatus::starting().message(), "Starting up...");
    assert_eq!(FriendlyStatus::starting().status_tag(), "starting");
    assert_eq!(FriendlyStatus::model_missing().message(), "Downloading AI model...");
    assert_eq!(FriendlyStatus::model_missing().status_tag(), "model_missing");
    assert_eq!(FriendlyStatus::stopped().message(), "Protection paused");
    assert_eq!(FriendlyStatus::stopped().status_tag(), "stopped");
    assert_eq!(FriendlyStatus::not_installed().message(), "Setup required");
    let e = FriendlyStatus::error("Something happened");
    assert_eq!(e.message(), "Something happened");
    assert_eq!(e.status_tag(), "error");
}

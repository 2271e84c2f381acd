use feelingwise::client::{
    model_or_default, neutralization_prompt, should_retry_generate, MAX_GENERATE_ATTEMPTS, NEUTRALIZATION_PROMPT,
};

#[test]
fn prompt_is_instructions_then_text() {
    let p = neutralization_prompt("SHOCKING news!!!");
    assert!(p.starts_with("You are a content neutralization system."));
    assert!(p.ends_with("Now neutralize this text:\nSHOCKING news!!!"));
    assert_eq!(p.len(), NEUTRALIZATION_PROMPT.len() + "SHOCKING news!!!".len());
}

#[test]
fn default_model_when_none_named() {
    assert_eq!(model_or_default(None), "phi3:mini");
    assert_eq!(model_or_default(Some("mistral:7b".to_string())), "mistral:7b");
}

#[test]
fn transport_failures_retried_up_to_bound() {
    assert_eq!(MAX_GENERATE_ATTEMPTS, 3);
    assert!(should_retry_generate(1));
    assert!(should_retry_generate(2));
    assert!(!should_retry_generate(3));
}

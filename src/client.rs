//! The request side of neutralization: the prompt sent to the runtime, the
//! model used when none is named, and how often a transport failure is retried.
use vstd::prelude::*;
use vstd::string::StringExecFns;

verus! {

/// Instructions given to the model ahead of the text to neutralize.
pub const NEUTRALIZATION_PROMPT: &'static str = r#"You are a content neutralization system. Your task is to transform emotionally manipulative social media text into neutral, factual language while preserving ALL original meaning and claims.

## RULES (MUST FOLLOW):

1. PRESERVE the author's viewpoint, concern, topic, and all factual claims
2. REMOVE only manipulation techniques:
   - ALL CAPS → normal case
   - Excessive punctuation (!!!) → single punctuation
   - Urgency language → factual timeline if applicable
   - Fear appeals → neutral concern statement
   - Ad hominem attacks → position-focused language
   - Absolute language (everyone, always, never) → proportional (some, often, rarely)
   - Alarm emojis (🚨🔥⚠️) → removed

3. DO NOT:
   - Add information not in the original
   - Judge whether claims are true or false
   - Use loaded verbs (claimed, alleged, admitted, revealed)
   - Add warnings, disclaimers, or editorial comments
   - Change the meaning or direction of the opinion

4. OUTPUT FORMAT:
   Return JSON with the following structure:
   {
     "neutralized": "The neutralized version of the text",
     "techniques": ["List", "of", "detected", "techniques"],
     "severity": 0-10
   }

Now neutralize this text:
"#;

/// The model used when a request names none.
pub const DEFAULT_GENERATION_MODEL: &'static str = "phi3:mini";

/// Attempts made when the transport fails; other failures are not retried.
pub const MAX_GENERATE_ATTEMPTS: u32 = 3;

/// Pause between two attempts.
pub const GENERATE_RETRY_DELAY_MS: u64 = 500;

/// The full prompt for `content`: the instructions, then the text itself.
pub fn neutralization_prompt(content: &str) -> (r: String)
    ensures
        r@ == NEUTRALIZATION_PROMPT@ + content@,
{
    let mut p = NEUTRALIZATION_PROMPT.to_owned();
    p.append(content);
    p
}

/// The model to use: the one asked for, or the default.
pub fn model_or_default(model: Option<String>) -> (r: String)
    ensures
        match model {
            Some(m) => r@ == m@,
            None => r@ == DEFAULT_GENERATION_MODEL@,
        },
{
    match model {
        Some(m) => m,
        None => DEFAULT_GENERATION_MODEL.to_owned(),
    }
}

/// Whether another attempt follows after `failed_attempts` transport failures.
pub fn should_retry_generate(failed_attempts: u32) -> (r: bool)
    ensures
        r == (failed_attempts < MAX_GENERATE_ATTEMPTS),
{
    failed_attempts < MAX_GENERATE_ATTEMPTS
}

} // verus!

use feelingwise::reply::{decode_reply, parse_reply, ReplyFields};

#[test]
fn well_formed_reply_is_decoded() {
    let r = parse_reply(r#"{"neutralized":"Calm text.","techniques":["caps",3,"urgency"],"severity":7}"#).unwrap();
    assert_eq!(r.neutralized, "Calm text.");
    assert_eq!(r.techniques, vec!["caps".to_string(), "urgency".to_string()]);
    assert_eq!(r.severity, 7);
}

#[test]
fn missing_fields_take_defaults() {
    let r = parse_reply(r#"{"neutralized":"x","severity":"high"}"#).unwrap();
    assert!(r.techniques.is_empty());
    assert_eq!(r.severity, 0);
    let r = parse_reply(r#"{"neutralized":"x","techniques":"none","severity":4294967297}"#).unwrap();
    assert!(r.techniques.is_empty());
    assert_eq!(r.severity, 1);
}

#[test]
fn missing_neutralized_is_an_error() {
    let e = parse_reply(r#"{"techniques":[],"severity":2}"#).err().unwrap();
    assert_eq!(e, "Missing 'neutralized' field in response");
    let e = parse_reply(r#"{"neutralized":5}"#).err().unwrap();
    assert_eq!(e, "Missing 'neutralized' field in response");
}

#[test]
fn malformed_reply_carries_the_payload() {
    let e = parse_reply("oops").err().unwrap();
    assert!(e.starts_with("Failed to parse AI response: "));
    assert!(e.ends_with(". Response: oops"));
}

#[test]
fn decode_from_given_fields() {
    let f = ReplyFields {
        neutralized: Some("n".to_string()),
        techniques: Some(vec![None, Some("a".to_string())]),
        severity: Some(-3),
    };
    let r = decode_reply("raw", Ok(f)).unwrap();
    assert_eq!(r.techniques, vec!["a".to_string()]);
    assert_eq!(r.severity, -3);
    let e = decode_reply("raw", Err("bad".to_string())).err().unwrap();
    assert_eq!(e, "Failed to parse AI response: bad. Response: raw");
}

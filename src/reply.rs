//! Turning the runtime's JSON reply into the result that is stored: the
//! neutralized text is required, non-text technique labels are dropped, and a
//! missing severity counts as 0.
use vstd::prelude::*;
use vstd::string::StringExecFns;

verus! {

/// The fields of a reply, as read from its JSON.
pub struct ReplyFields {
    /// `neutralized`, when it is a string.
    pub neutralized: Option<String>,
    /// `techniques`, when it is an array: each item, when it is a string.
    pub techniques: Option<Vec<Option<String>>>,
    /// `severity`, when it is an integer that fits in 64 bits.
    pub severity: Option<i64>,
}

pub struct ReplyFieldsView {
    pub neutralized: Option<Seq<char>>,
    pub techniques: Option<Seq<Option<Seq<char>>>>,
    pub severity: Option<i64>,
}

pub open spec fn opt_text(o: Option<String>) -> Option<Seq<char>> {
    match o {
        Some(s) => Some(s@),
        None => None,
    }
}

pub open spec fn fields_view(f: ReplyFields) -> ReplyFieldsView {
    ReplyFieldsView {
        neutralized: opt_text(f.neutralized),
        techniques: match f.techniques {
            Some(v) => Some(v@.map_values(|o: Option<String>| opt_text(o))),
            None => None,
        },
        severity: f.severity,
    }
}

pub open spec fn parsed_view(r: Result<ReplyFields, String>) -> Result<ReplyFieldsView, Seq<char>> {
    match r {
        Ok(f) => Ok(fields_view(f)),
        Err(e) => Err(e@),
    }
}

/// What the JSON reader makes of a reply text: its fields, or the reader's
/// error message.
pub uninterp spec fn reply_fields_of(text: Seq<char>) -> Result<ReplyFieldsView, Seq<char>>;

/// Relies on `serde_json::from_str` into a `Value`, whose members are then
/// handed out as plain values (`as_str`, `as_array`, `as_i64`); on a parse
/// failure, the error's message.
#[verifier::external_body]
fn read_reply(response: &str) -> (r: Result<ReplyFields, String>)
    ensures
        parsed_view(r) == reply_fields_of(response@),
{
    let v: serde_json::Value = serde_json::from_str(response).map_err(|e| e.to_string())?;
    Ok(ReplyFields {
        neutralized: v["neutralized"].as_str().map(String::from),
        techniques: v["techniques"].as_array().map(|a| a.iter().map(|x| x.as_str().map(String::from)).collect()),
        severity: v["severity"].as_i64(),
    })
}

/// The result stored for a reply.
pub struct NeutralizedReply {
    pub neutralized: String,
    pub techniques: Vec<String>,
    pub severity: i32,
}

/// The text items, in order.
pub open spec fn text_items(s: Seq<Option<Seq<char>>>) -> Seq<Seq<char>>
    decreases s.len(),
{
    if s.len() == 0 {
        Seq::empty()
    } else {
        let r = text_items(s.drop_last());
        match s.last() {
            Some(t) => r.push(t),
            None => r,
        }
    }
}

pub const PARSE_FAILURE: &'static str = "Failed to parse AI response: ";
pub const RESPONSE_LABEL: &'static str = ". Response: ";
pub const MISSING_NEUTRALIZED: &'static str = "Missing 'neutralized' field in response";

/// The outcome for a reply: its text, labels and severity, or an error that
/// carries the reader's message and the reply itself.
pub open spec fn decoded(response: Seq<char>, fields: Result<ReplyFieldsView, Seq<char>>) -> Result<
    (Seq<char>, Seq<Seq<char>>, i32),
    Seq<char>,
> {
    match fields {
        Err(e) => Err(PARSE_FAILURE@ + e + RESPONSE_LABEL@ + response),
        Ok(f) => match f.neutralized {
            None => Err(MISSING_NEUTRALIZED@),
            Some(n) => Ok(
                (
                    n,
                    match f.techniques {
                        Some(t) => text_items(t),
                        None => Seq::empty(),
                    },
                    (match f.severity {
                        Some(v) => v,
                        None => 0,
                    }) as i32,
                ),
            ),
        },
    }
}

pub open spec fn reply_view(r: Result<NeutralizedReply, String>) -> Result<(Seq<char>, Seq<Seq<char>>, i32), Seq<char>> {
    match r {
        Ok(x) => Ok((x.neutralized@, x.techniques@.map_values(|t: String| t@), x.severity)),
        Err(e) => Err(e@),
    }
}

fn text_labels(items: &Vec<Option<String>>) -> (r: Vec<String>)
    ensures
        r@.map_values(|t: String| t@) == text_items(items@.map_values(|o: Option<String>| opt_text(o))),
{
    let ghost all = items@.map_values(|o: Option<String>| opt_text(o));
    let mut r: Vec<String> = Vec::new();
    let mut i: usize = 0;
    while i < items.len()
        invariant
            i <= items@.len(),
            all == items@.map_values(|o: Option<String>| opt_text(o)),
            r@.map_values(|t: String| t@) == text_items(all.subrange(0, i as int)),
        decreases items@.len() - i,
    {
        proof {
            assert(all.subrange(0, i + 1).drop_last() =~= all.subrange(0, i as int));
        }
        match &items[i] {
            Some(t) => {
                r.push(t.clone());
                assert(r@.map_values(|t: String| t@) =~= text_items(all.subrange(0, i + 1)));
            },
            None => {
                assert(r@.map_values(|t: String| t@) =~= text_items(all.subrange(0, i + 1)));
            },
        }
        i += 1;
    }
    assert(all.subrange(0, items@.len() as int) =~= all);
    r
}

/// The outcome for `response`, given what the JSON reader made of it.
pub fn decode_reply(response: &str, fields: Result<ReplyFields, String>) -> (r: Result<NeutralizedReply, String>)
    ensures
        reply_view(r) == decoded(response@, parsed_view(fields)),
{
    match fields {
        Err(e) => {
            let mut msg = PARSE_FAILURE.to_owned();
            msg.append(e.as_str());
            msg.append(RESPONSE_LABEL);
            msg.append(response);
            Err(msg)
        },
        Ok(f) => match f.neutralized {
            None => Err(MISSING_NEUTRALIZED.to_owned()),
            Some(n) => {
                let techniques = match &f.techniques {
                    Some(t) => text_labels(t),
                    None => {
                        let v: Vec<String> = Vec::new();
                        assert(v@.map_values(|t: String| t@) =~= Seq::<Seq<char>>::empty());
                        v
                    },
                };
                let sev: i64 = match f.severity {
                    Some(v) => v,
                    None => 0,
                };
                let severity = #[verifier::truncate] (sev as i32);
                Ok(NeutralizedReply { neutralized: n, techniques, severity })
            },
        },
    }
}

/// Reads and decodes a reply of the runtime.
pub fn parse_reply(response: &str) -> (r: Result<NeutralizedReply, String>)
    ensures
        reply_view(r) == decoded(response@, reply_fields_of(response@)),
{
    let fields = read_reply(response);
    decode_reply(response, fields)
}

} // verus!

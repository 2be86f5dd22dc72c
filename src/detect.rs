//! Telling the two input formats apart.
use vstd::prelude::*;
use crate::text::{chars_of, trim_text, trimmed};

verus! {

#[verifier::external_type_specification]
#[verifier::external_body]
pub struct ExJsonValue(serde_json::Value);

/// The two shapes an input can have.
#[derive(Clone, Copy, Debug, PartialEq, Eq, Structural)]
pub enum FileFormat {
    /// One JSON document with a top-level `metrics` member.
    HandleSummary,
    /// Newline-delimited JSON records.
    Jsonl,
}

#[verifier::external_type_specification]
#[verifier::external_body]
#[verifier::reject_recursive_types(K)]
#[verifier::reject_recursive_types(V)]
pub struct ExJsonMap<K, V>(serde_json::Map<K, V>);

/// What `serde_json` reads from a text as a JSON object: the names of its
/// top-level members, or nothing where the text is not one JSON object.
pub uninterp spec fn json_object_keys(s: Seq<char>) -> Option<Set<Seq<char>>>;

/// The keys a JSON object map holds.
pub uninterp spec fn object_keys(m: serde_json::Map<String, serde_json::Value>) -> Set<Seq<char>>;

/// Relies on `serde_json::from_str::<serde_json::Map<String, serde_json::Value>>`:
/// succeeds exactly when the text is one JSON object, and the map then holds
/// the object's members.
#[verifier::external_body]
fn parse_json_object(text: &str) -> (r: Option<serde_json::Map<String, serde_json::Value>>)
    ensures
        match r {
            Some(m) => json_object_keys(text@) == Some(object_keys(m)),
            None => json_object_keys(text@) is None,
        },
{
    serde_json::from_str::<serde_json::Map<String, serde_json::Value>>(text).ok()
}

/// Relies on `serde_json::Map::contains_key`: whether the map holds the key.
#[verifier::external_body]
fn object_has_key(m: &serde_json::Map<String, serde_json::Value>, key: &str) -> (r: bool)
    ensures
        r == object_keys(*m).contains(key@),
{
    m.contains_key(key)
}

/// Whether a text is one JSON object with a top-level member named `key`.
pub open spec fn json_has_member(t: Seq<char>, key: Seq<char>) -> bool {
    json_object_keys(t) is Some && json_object_keys(t)->0.contains(key)
}

/// Whether a text begins with an opening brace.
pub open spec fn opens_object(t: Seq<char>) -> bool {
    t.len() > 0 && t[0] == '{'
}

/// The format of a trimmed text, given whether it parsed as JSON with a
/// top-level `metrics` member.
pub fn classify(trimmed_text: &str, has_metrics: bool) -> (r: FileFormat)
    ensures
        r == (if opens_object(trimmed_text@) && has_metrics {
            FileFormat::HandleSummary
        } else {
            FileFormat::Jsonl
        }),
{
    let cs = chars_of(trimmed_text);
    if cs.len() > 0 && cs[0] == '{' && has_metrics {
        FileFormat::HandleSummary
    } else {
        FileFormat::Jsonl
    }
}

/// Decides which parser an input goes to: a structured summary exactly
/// when the trimmed text opens with `{` and is one JSON object with a
/// top-level `metrics` member; anything else is read as an event log.
pub fn detect_format(content: &str) -> (r: FileFormat)
    ensures
        r == FileFormat::HandleSummary <==> opens_object(trimmed(content@)) && json_has_member(
            trimmed(content@),
            "metrics"@,
        ),
        r == FileFormat::HandleSummary || r == FileFormat::Jsonl,
{
    let t = trim_text(content);
    let cs = chars_of(t.as_str());
    let mut has_metrics = false;
    if cs.len() > 0 && cs[0] == '{' {
        if let Some(m) = parse_json_object(t.as_str()) {
            has_metrics = object_has_key(&m, "metrics");
        }
    }
    classify(t.as_str(), has_metrics)
}

} // verus!

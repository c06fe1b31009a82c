use vstd::prelude::*;
use crate::value::Val;

verus! {

/// Relies on serde_json::Value as the carrier of parsed documents between
/// the two trusted functions below.
#[verifier::external_type_specification]
#[verifier::external_body]
pub struct ExJsonValue(serde_json::Value);

/// What a text parses to as a JSON document, if anything: a function of the
/// text alone. Numbers are read as integers where they are integers, and as
/// null otherwise, since values here carry no floating point.
pub uninterp spec fn parsed_json(s: Seq<char>) -> Option<Val>;

/// Relies on serde_json::from_str: whether and how a text parses as a JSON
/// document depends on the text alone.
#[verifier::external_body]
pub fn parse_json(s: &str) -> (r: Option<crate::value::NodeValue>)
    ensures
        match r {
            Some(v) => parsed_json(s@) == Some(v.dv()),
            None => parsed_json(s@) is None,
        },
{
    match serde_json::from_str::<serde_json::Value>(s) {
        Ok(j) => Some(json_to_value(j)),
        Err(_) => None,
    }
}

/// Relies on serde_json::Value: carries a parsed document over into this
/// crate's value shape, variant by variant. Only `parse_json` calls it.
#[verifier::external_body]
fn json_to_value(j: serde_json::Value) -> crate::value::NodeValue {
    match j {
        serde_json::Value::Null => crate::value::NodeValue::Null,
        serde_json::Value::Bool(b) => crate::value::NodeValue::Bool(b),
        serde_json::Value::Number(n) => match n.as_i64() {
            Some(i) => crate::value::NodeValue::Int(i),
            None => crate::value::NodeValue::Null,
        },
        serde_json::Value::String(s) => crate::value::NodeValue::Text(s),
        serde_json::Value::Array(a) => crate::value::NodeValue::List(
            a.into_iter().map(json_to_value).collect(),
        ),
        serde_json::Value::Object(m) => crate::value::NodeValue::Object(
            m.into_iter().map(|(k, v)| (k, json_to_value(v))).collect(),
        ),
    }
}

/// Relies on std::time::SystemTime: seconds since the Unix epoch, read from
/// the system clock. Nothing can be promised of a clock reading.
#[verifier::external_body]
pub(crate) fn now_secs() -> u64 {
    std::time::SystemTime::now()
        .duration_since(std::time::UNIX_EPOCH)
        .unwrap_or_default()
        .as_secs()
}

/// Relies on uuid::Uuid::new_v4 and its simple formatting: a fresh random
/// identifier rendered as 32 hexadecimal characters. The value is random, so
/// only its length is promised.
#[verifier::external_body]
pub(crate) fn fresh_task_id() -> (r: String)
    ensures
        r@.len() == 32,
{
    uuid::Uuid::new_v4().simple().to_string()
}

} // verus!

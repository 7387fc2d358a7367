//! The JSON boundary of the broker.
//!
//! Inbound wire text is decoded by serde_json behind the trusted items below;
//! what each call returns is a function of its argument alone, so each result
//! is given a name (an uninterpreted spec function) that the callers' own
//! contracts build on.  Outbound wire text is composed by verified code in
//! [`crate::protocol`]; the only trusted piece on that side is the JSON
//! string encoder.

use vstd::prelude::*;

verus! {

/// What decoding `raw` as an envelope `{"action": <string>, "data": <value>}`
/// yields: the action and the data value re-encoded as JSON text, or nothing
/// when `raw` is not such an object.
pub uninterp spec fn envelope_of(raw: Seq<char>) -> Option<(Seq<char>, Seq<char>)>;

/// What decoding `data` as an auth body `{"app_key": <string>}` yields.
pub uninterp spec fn auth_key_of(data: Seq<char>) -> Option<Seq<char>>;

/// What decoding `data` as a run body `{"target": <string>, "module":
/// <string>, "params": <value>}` yields: target, module, and the params
/// value re-encoded as JSON text.
pub uninterp spec fn run_body_of(data: Seq<char>) -> Option<(Seq<char>, Seq<char>, Seq<char>)>;

/// The JSON string literal (quoted, escaped) that encodes `s`.
pub uninterp spec fn json_str(s: Seq<char>) -> Seq<char>;

/// Relies on serde_json: `from_str` parses arbitrary JSON text into a
/// `Value`, `Value::get` looks a key up in an object (`None` on any other
/// value), `Value::as_str` gives the text of a string value, and `to_string`
/// re-encodes a `Value` as JSON text.  All four are deterministic functions
/// of their input (`Value` objects keep their entries in a fixed, sorted
/// order), so the overall result depends on `raw` alone.
#[verifier::external_body]
pub(crate) fn parse_envelope(raw: &str) -> (r: Option<(String, String)>)
    ensures
        match r {
            Some(p) => envelope_of(raw@) == Some((p.0@, p.1@)),
            None => envelope_of(raw@) is None,
        },
{
    let v: serde_json::Value = match serde_json::from_str(raw) {
        Ok(v) => v,
        Err(_) => return None,
    };
    let action = v.get("action")?.as_str()?.to_string();
    let data = match serde_json::to_string(v.get("data")?) {
        Ok(d) => d,
        Err(_) => return None,
    };
    Some((action, data))
}

/// Relies on serde_json (`from_str`, `Value::get`, `Value::as_str`, see
/// [`parse_envelope`]): decodes `{"app_key": <string>}`, a deterministic
/// function of `data` alone.
#[verifier::external_body]
pub(crate) fn parse_auth_key(data: &str) -> (r: Option<String>)
    ensures
        match r {
            Some(k) => auth_key_of(data@) == Some(k@),
            None => auth_key_of(data@) is None,
        },
{
    let v: serde_json::Value = match serde_json::from_str(data) {
        Ok(v) => v,
        Err(_) => return None,
    };
    Some(v.get("app_key")?.as_str()?.to_string())
}

/// Relies on serde_json (`from_str`, `Value::get`, `Value::as_str`,
/// `to_string`, see [`parse_envelope`]): decodes `{"target": <string>,
/// "module": <string>, "params": <value>}`, re-encoding the params value as
/// JSON text; a deterministic function of `data` alone.
#[verifier::external_body]
pub(crate) fn parse_run_body(data: &str) -> (r: Option<(String, String, String)>)
    ensures
        match r {
            Some(b) => run_body_of(data@) == Some((b.0@, b.1@, b.2@)),
            None => run_body_of(data@) is None,
        },
{
    let v: serde_json::Value = match serde_json::from_str(data) {
        Ok(v) => v,
        Err(_) => return None,
    };
    let target = v.get("target")?.as_str()?.to_string();
    let module = v.get("module")?.as_str()?.to_string();
    let params = match serde_json::to_string(v.get("params")?) {
        Ok(p) => p,
        Err(_) => return None,
    };
    Some((target, module, params))
}

/// Relies on serde_json::to_string on a string slice: yields the quoted,
/// escaped JSON string literal for `s`.  It cannot fail there (serialization
/// errors arise only from a failing `Serialize` impl or from maps with
/// non-string keys), and the result depends on `s` alone.
#[verifier::external_body]
pub(crate) fn json_string(s: &str) -> (r: String)
    ensures
        r@ == json_str(s@),
{
    serde_json::to_string(s).unwrap()
}

} // verus!

//! Response-envelope handling: decoding the platform's uniform wrapper
//! out of a response body, and mapping it to a domain value or an error.

use vstd::prelude::*;

use crate::error::TuyaError;
use crate::model::TuyaResponse;

verus! {

/// serde_json's dynamic JSON value, carried opaquely.
#[verifier::external_type_specification]
#[verifier::external_body]
pub struct ExValue(serde_json::Value);

/// Relies on serde_json's `from_str`: the parsed JSON value, or nothing
/// when the body is not valid JSON.
#[verifier::external_body]
fn json_parse(s: &str) -> Option<serde_json::Value> {
    serde_json::from_str::<serde_json::Value>(s).ok()
}

/// Relies on serde_json's `Value::get`: the named member of a JSON
/// object, if there is one.
#[verifier::external_body]
fn json_get<'a>(v: &'a serde_json::Value, key: &str) -> Option<&'a serde_json::Value> {
    v.get(key)
}

/// Relies on serde_json's `Value::as_bool`.
#[verifier::external_body]
fn json_as_bool(v: &serde_json::Value) -> Option<bool> {
    v.as_bool()
}

/// Relies on serde_json's `Value::as_i64`.
#[verifier::external_body]
fn json_as_i64(v: &serde_json::Value) -> Option<i64> {
    v.as_i64()
}

/// Relies on serde_json's `Value::as_u64`.
#[verifier::external_body]
fn json_as_u64(v: &serde_json::Value) -> Option<u64> {
    v.as_u64()
}

/// Relies on serde_json's `Value::as_str`: the string's text, owned.
#[verifier::external_body]
fn json_as_string(v: &serde_json::Value) -> Option<String> {
    v.as_str().map(|s| s.to_owned())
}

/// Relies on serde_json's `Display` for `Value`: the value written back
/// out as JSON text.
#[verifier::external_body]
fn json_to_string(v: &serde_json::Value) -> String {
    v.to_string()
}

/// Decodes a response body into the envelope. The `result` member, when
/// present, is kept as its JSON text for the caller to decode into the
/// expected domain type. Any body that does not carry the envelope's
/// required members is a transport-level decode failure.
pub fn decode_envelope(body: &str) -> (r: Result<TuyaResponse<String>, TuyaError>)
    ensures
        r is Err ==> r->Err_0 is RequestFailure,
{
    let parsed = match json_parse(body) {
        Some(v) => v,
        None => {
            return Err(TuyaError::RequestFailure(String::from_str(
                "response body is not valid JSON",
            )));
        },
    };
    let success = match json_get(&parsed, "success") {
        Some(v) => match json_as_bool(v) {
            Some(b) => b,
            None => {
                return Err(TuyaError::RequestFailure(String::from_str(
                    "envelope field 'success' is not a boolean",
                )));
            },
        },
        None => {
            return Err(TuyaError::RequestFailure(String::from_str(
                "envelope is missing the field 'success'",
            )));
        },
    };
    let t = match json_get(&parsed, "t") {
        Some(v) => match json_as_u64(v) {
            Some(n) => n,
            None => {
                return Err(TuyaError::RequestFailure(String::from_str(
                    "envelope field 't' is not an integer",
                )));
            },
        },
        None => 0,
    };
    let tid = match json_get(&parsed, "tid") {
        Some(v) => match json_as_string(v) {
            Some(s) => s,
            None => {
                return Err(TuyaError::RequestFailure(String::from_str(
                    "envelope field 'tid' is not a string",
                )));
            },
        },
        None => String::new(),
    };
    let code = match json_get(&parsed, "code") {
        Some(v) => match json_as_i64(v) {
            Some(n) => {
                if n < -2147483648 || n > 2147483647 {
                    return Err(TuyaError::RequestFailure(String::from_str(
                        "envelope field 'code' is out of range",
                    )));
                }
                Some(n as i32)
            },
            None => None,
        },
        None => None,
    };
    let msg = match json_get(&parsed, "msg") {
        Some(v) => json_as_string(v),
        None => None,
    };
    let result = match json_get(&parsed, "result") {
        Some(v) => Some(json_to_string(v)),
        None => None,
    };
    Ok(TuyaResponse { success, result, code, msg, t, tid })
}

/// Maps a decoded envelope to the domain value or the platform's own
/// error: a reported success must carry a result, and a reported failure
/// surfaces its diagnostic verbatim, never a default value.
pub fn process_response<T>(res: TuyaResponse<T>) -> (r: Result<T, TuyaError>)
    requires
        !res.success ==> res.code is Some && res.msg is Some,
    ensures
        res.success && res.result is Some ==> (r matches Ok(v) && v == res.result->Some_0),
        res.success && res.result is None ==> (r matches Err(e) && (e matches
            TuyaError::RequestFailure(m) && m@ == "platform reported success without a result"@)),
        !res.success ==> (r matches Err(e) && (e matches TuyaError::RequestError {
            msg,
            code,
            t,
            tid,
        } && msg == res.msg->Some_0 && code == res.code->Some_0 && t == res.t && tid == res.tid)),
{
    if res.success {
        match res.result {
            Some(v) => Ok(v),
            None => Err(
                TuyaError::RequestFailure(
                    String::from_str("platform reported success without a result"),
                ),
            ),
        }
    } else {
        Err(
            TuyaError::RequestError {
                msg: res.msg.unwrap(),
                code: res.code.unwrap(),
                t: res.t,
                tid: res.tid,
            },
        )
    }
}

/// The whole response side of a call: decode the envelope, then map it.
/// A failure envelope that lacks its diagnostic fields is a decode
/// failure rather than a panic.
pub fn handle_response_body(body: &str) -> (r: Result<String, TuyaError>)
    ensures
        r is Err ==> (r->Err_0 is RequestFailure || r->Err_0 is RequestError),
{
    let envelope = decode_envelope(body)?;
    if !envelope.success && (envelope.code.is_none() || envelope.msg.is_none()) {
        return Err(TuyaError::RequestFailure(String::from_str(
            "failure envelope is missing its 'code' or 'msg' diagnostic",
        )));
    }
    process_response(envelope)
}

} // verus!

use tuya_meter::error::TuyaError;
use tuya_meter::model::TuyaResponse;
use tuya_meter::request::{decode_envelope, handle_response_body, process_response};

#[test]
fn failure_envelope_maps_to_request_error() {
    let res: TuyaResponse<String> = TuyaResponse {
        success: false,
        result: None,
        code: Some(1010),
        msg: Some("token invalid".to_owned()),
        t: 123,
        tid: "x".to_owned(),
    };
    match process_response(res).unwrap_err() {
        TuyaError::RequestError { msg, code, t, tid } => {
            assert_eq!(msg, "token invalid");
            assert_eq!(code, 1010);
            assert_eq!(t, 123);
            assert_eq!(tid, "x");
        }
        other => panic!("expected RequestError, got {other:?}"),
    }
}

#[test]
fn success_with_result_is_returned() {
    let res: TuyaResponse<u32> = TuyaResponse {
        success: true,
        result: Some(7),
        code: None,
        msg: None,
        t: 1,
        tid: "t".to_owned(),
    };
    assert_eq!(process_response(res).unwrap(), 7);
}

#[test]
fn success_without_result_is_a_decode_failure() {
    let res: TuyaResponse<u32> = TuyaResponse {
        success: true,
        result: None,
        code: None,
        msg: None,
        t: 1,
        tid: "t".to_owned(),
    };
    match process_response(res).unwrap_err() {
        TuyaError::RequestFailure(m) => {
            assert_eq!(m, "platform reported success without a result");
        }
        other => panic!("expected RequestFailure, got {other:?}"),
    }
}

#[test]
fn decode_envelope_reads_the_platform_wrapper() {
    let body = "{\"success\":true,\"result\":{\"access_token\":\"a\"},\"t\":12,\"tid\":\"abc\"}";
    let env = decode_envelope(body).unwrap();
    assert!(env.success);
    assert_eq!(env.t, 12);
    assert_eq!(env.tid, "abc");
    assert_eq!(env.code, None);
    assert_eq!(env.msg, None);
    assert_eq!(env.result.as_deref(), Some("{\"access_token\":\"a\"}"));
}

#[test]
fn decode_envelope_rejects_non_json() {
    match decode_envelope("not json").unwrap_err() {
        TuyaError::RequestFailure(m) => assert_eq!(m, "response body is not valid JSON"),
        other => panic!("expected RequestFailure, got {other:?}"),
    }
}

#[test]
fn decode_envelope_requires_success_flag() {
    match decode_envelope("{\"t\":1,\"tid\":\"x\"}").unwrap_err() {
        TuyaError::RequestFailure(m) => {
            assert_eq!(m, "envelope is missing the field 'success'");
        }
        other => panic!("expected RequestFailure, got {other:?}"),
    }
}

#[test]
fn handle_response_body_maps_failure_envelopes() {
    let body =
        "{\"success\":false,\"code\":1010,\"msg\":\"token invalid\",\"t\":123,\"tid\":\"x\"}";
    match handle_response_body(body).unwrap_err() {
        TuyaError::RequestError { msg, code, t, tid } => {
            assert_eq!(msg, "token invalid");
            assert_eq!(code, 1010);
            assert_eq!(t, 123);
            assert_eq!(tid, "x");
        }
        other => panic!("expected RequestError, got {other:?}"),
    }
}

#[test]
fn handle_response_body_returns_the_raw_result() {
    let body = "{\"success\":true,\"result\":[1,2,3],\"t\":5,\"tid\":\"y\"}";
    assert_eq!(handle_response_body(body).unwrap(), "[1,2,3]");
}

#[test]
fn handle_response_body_guards_missing_diagnostics() {
    let body = "{\"success\":false,\"t\":5,\"tid\":\"y\"}";
    match handle_response_body(body).unwrap_err() {
        TuyaError::RequestFailure(m) => {
            assert_eq!(m, "failure envelope is missing its 'code' or 'msg' diagnostic");
        }
        other => panic!("expected RequestFailure, got {other:?}"),
    }
}

#[test]
fn error_messages_render() {
    let e = TuyaError::RequestError {
        msg: "token invalid".to_owned(),
        code: 1010,
        t: 123,
        tid: "x".to_owned(),
    };
    let m = e.to_message();
    assert!(m.contains("token invalid"));
    assert!(m.contains("1010"));
    assert!(m.contains("tid: x"));
    let u = TuyaError::HostUrlParse("relative URL without a base".to_owned());
    assert_eq!(
        u.to_message(),
        "Host URL failed to parse: relative URL without a base"
    );
    let f = TuyaError::RequestFailure("connection reset".to_owned());
    assert_eq!(f.to_message(), "connection reset");
}

#[test]
fn error_messages_render_negative_codes() {
    let e = TuyaError::RequestError {
        msg: "m".to_owned(),
        code: -5,
        t: 0,
        tid: "".to_owned(),
    };
    assert!(e.to_message().contains("code: -5"));
}

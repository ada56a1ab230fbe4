use tuya_meter::auth::TokenResponse;
use tuya_meter::client::TuyaClient;
use tuya_meter::error::TuyaError;
use tuya_meter::query::{build_canonical_url, build_query_string, sort_query_params};

fn params(pairs: &[(&str, &str)]) -> Vec<(String, String)> {
    pairs.iter().map(|(k, v)| (k.to_string(), v.to_string())).collect()
}

fn business_client() -> TuyaClient {
    let mut c = TuyaClient::new("https://openapi.example.com", "abc", "s3cr3t");
    c.apply_token_response(
        0,
        TokenResponse {
            access_token: "tok".to_owned(),
            refresh_token: "ref".to_owned(),
            expire_time: 7_200_000,
            uid: "u".to_owned(),
        },
    );
    c
}

#[test]
fn sorting_is_by_key_bytewise() {
    let sorted = sort_query_params(params(&[
        ("start_month", "202311"),
        ("code", "add_ele"),
        ("end_month", "202311"),
    ]));
    let keys: Vec<&str> = sorted.iter().map(|p| p.0.as_str()).collect();
    assert_eq!(keys, ["code", "end_month", "start_month"]);
}

#[test]
fn query_string_joins_sorted_pairs() {
    let sorted = sort_query_params(params(&[
        ("start_month", "202311"),
        ("code", "add_ele"),
        ("end_month", "202311"),
    ]));
    assert_eq!(
        build_query_string(&sorted),
        "code=add_ele&end_month=202311&start_month=202311"
    );
}

#[test]
fn canonical_url_with_and_without_params() {
    let none: Vec<(String, String)> = Vec::new();
    assert_eq!(build_canonical_url("/v1.0/token", &none), "/v1.0/token");
    let some = sort_query_params(params(&[("grant_type", "1")]));
    assert_eq!(
        build_canonical_url("/v1.0/token", &some),
        "/v1.0/token?grant_type=1"
    );
}

#[test]
fn parameter_order_does_not_change_the_signature() {
    let c = business_client();
    let t: u128 = 1_690_000_000_000;
    let nonce: u32 = 42;
    let one = c
        .prepare_request_at(
            "GET",
            "/v1.0/devices/d1/statistics/months",
            Some(params(&[
                ("code", "add_ele"),
                ("end_month", "202311"),
                ("start_month", "202311"),
            ])),
            true,
            t,
            nonce,
        )
        .unwrap();
    let two = c
        .prepare_request_at(
            "GET",
            "/v1.0/devices/d1/statistics/months",
            Some(params(&[
                ("start_month", "202311"),
                ("end_month", "202311"),
                ("code", "add_ele"),
            ])),
            true,
            t,
            nonce,
        )
        .unwrap();
    assert_eq!(one.url, two.url);
    assert_eq!(one.headers.0, two.headers.0);

    let other = c
        .prepare_request_at(
            "GET",
            "/v1.0/devices/d1/statistics/months",
            Some(params(&[
                ("start_month", "202312"),
                ("end_month", "202311"),
                ("code", "add_ele"),
            ])),
            true,
            t,
            nonce,
        )
        .unwrap();
    assert_ne!(one.url, other.url);
    let sign_of = |h: &tuya_meter::model::Headers| {
        h.0.iter().find(|p| p.0 == "sign").map(|p| p.1.clone()).unwrap()
    };
    assert_ne!(sign_of(&one.headers), sign_of(&other.headers));
}

#[test]
fn prepared_request_has_the_required_headers_in_order() {
    let c = business_client();
    let r = c
        .prepare_request_at(
            "GET",
            "/v2.0/cloud/thing/device",
            Some(params(&[("page_size", "20")])),
            true,
            1_690_000_000_000,
            7,
        )
        .unwrap();
    assert_eq!(r.method, "GET");
    assert_eq!(
        r.url,
        "https://openapi.example.com/v2.0/cloud/thing/device?page_size=20"
    );
    let names: Vec<&str> = r.headers.0.iter().map(|p| p.0.as_str()).collect();
    assert_eq!(
        names,
        ["access_token", "client_id", "sign_method", "t", "nonce", "sign"]
    );
    assert_eq!(r.headers.0[0].1, "tok");
    assert_eq!(r.headers.0[1].1, "abc");
    assert_eq!(r.headers.0[2].1, "HMAC-SHA256");
    assert_eq!(r.headers.0[3].1, "1690000000000");
    assert_eq!(r.headers.0[4].1, "7");
    // The signature covers the canonical URL, computed before the sign
    // header itself exists.
    let sts = c.string_to_sign("GET", "", "/v2.0/cloud/thing/device?page_size=20");
    let expected = c.sign(&1_690_000_000_000u128, &sts, &7u32, true);
    assert_eq!(r.headers.0[5].1, expected);
}

#[test]
fn token_requests_have_no_access_token_header() {
    let c = TuyaClient::new("https://openapi.example.com", "abc", "s3cr3t");
    let r = c
        .prepare_request_at(
            "GET",
            "/v1.0/token",
            Some(params(&[("grant_type", "1")])),
            false,
            1,
            2,
        )
        .unwrap();
    let names: Vec<&str> = r.headers.0.iter().map(|p| p.0.as_str()).collect();
    assert_eq!(names, ["client_id", "sign_method", "t", "nonce", "sign"]);
}

#[test]
fn invalid_host_is_a_url_parse_error() {
    let c = TuyaClient::new("not a url", "abc", "s3cr3t");
    match c.prepare_request_at("GET", "/v1.0/token", None, false, 1, 2) {
        Err(TuyaError::HostUrlParse(_)) => {}
        other => panic!("expected HostUrlParse, got {other:?}"),
    }
}

#[test]
fn fresh_requests_draw_fresh_nonces() {
    let c = business_client();
    let a = c
        .prepare_business_request("GET", "/v2.0/cloud/thing/device", None)
        .unwrap();
    let b = c
        .prepare_business_request("GET", "/v2.0/cloud/thing/device", None)
        .unwrap();
    let nonce_of = |h: &tuya_meter::model::Headers| {
        h.0.iter().find(|p| p.0 == "nonce").map(|p| p.1.clone()).unwrap()
    };
    // Two draws of a random 32-bit nonce virtually never collide; equal
    // nonces here would mean the nonce is not being drawn at all.
    assert_ne!(nonce_of(&a.headers), nonce_of(&b.headers));
}

use hmac::Mac;
use sha2::Digest;

use tuya_meter::auth::TokenResponse;
use tuya_meter::client::TuyaClient;

fn client_with_token(
    client_id: &str,
    client_secret: &str,
    access_token: &str,
) -> TuyaClient {
    let mut c = TuyaClient::new("https://openapi.example.com", client_id, client_secret);
    c.apply_token_response(
        0,
        TokenResponse {
            access_token: access_token.to_owned(),
            refresh_token: "r".to_owned(),
            expire_time: 7_200_000,
            uid: "u".to_owned(),
        },
    );
    c
}

fn reference_signature(
    client_id: &str,
    client_secret: &str,
    access_token: Option<&str>,
    t: u128,
    nonce: u32,
    method: &str,
    body: &str,
    url: &str,
) -> String {
    let digest = format!("{:x}", sha2::Sha256::digest(body.as_bytes()));
    let string_to_sign = format!("{method}\n{digest}\n\n{url}");
    let source = match access_token {
        Some(tok) => format!("{client_id}{tok}{t}{nonce}{string_to_sign}"),
        None => format!("{client_id}{t}{nonce}{string_to_sign}"),
    };
    let mut mac = hmac::Hmac::<sha2::Sha256>::new_from_slice(client_secret.as_bytes()).unwrap();
    mac.update(source.as_bytes());
    format!("{:X}", mac.finalize().into_bytes())
}

#[test]
fn signature_is_deterministic() {
    let c = client_with_token("abc", "s3cr3t", "tok");
    let url = "/v1.0/devices/d1/statistics/months?code=add_ele&end_month=202311&start_month=202311";
    let sts = c.string_to_sign("GET", "", url);
    let first = c.sign(&1_690_000_000_000u128, &sts, &42u32, true);
    let second = c.sign(&1_690_000_000_000u128, &sts, &42u32, true);
    assert_eq!(first, second);
    assert_eq!(first.len(), 64);
    assert!(first.chars().all(|ch| ch.is_ascii_digit() || ch.is_ascii_uppercase()));
}

#[test]
fn signature_matches_direct_computation() {
    let c = client_with_token("abc", "s3cr3t", "tok");
    let url = "/v1.0/devices/d1/statistics/months?code=add_ele&end_month=202311&start_month=202311";
    let sts = c.string_to_sign("GET", "", url);
    let got = c.sign(&1_690_000_000_000u128, &sts, &42u32, true);
    let expected = reference_signature(
        "abc",
        "s3cr3t",
        Some("tok"),
        1_690_000_000_000,
        42,
        "GET",
        "",
        url,
    );
    assert_eq!(got, expected);
}

#[test]
fn signature_depends_on_every_input() {
    let url = "/v1.0/devices/d1/statistics/months?code=add_ele&end_month=202311&start_month=202311";
    let base = {
        let c = client_with_token("abc", "s3cr3t", "tok");
        let sts = c.string_to_sign("GET", "", url);
        c.sign(&1_690_000_000_000u128, &sts, &42u32, true)
    };
    let other_id = {
        let c = client_with_token("abd", "s3cr3t", "tok");
        let sts = c.string_to_sign("GET", "", url);
        c.sign(&1_690_000_000_000u128, &sts, &42u32, true)
    };
    let other_secret = {
        let c = client_with_token("abc", "s3cr3u", "tok");
        let sts = c.string_to_sign("GET", "", url);
        c.sign(&1_690_000_000_000u128, &sts, &42u32, true)
    };
    let other_token = {
        let c = client_with_token("abc", "s3cr3t", "tol");
        let sts = c.string_to_sign("GET", "", url);
        c.sign(&1_690_000_000_000u128, &sts, &42u32, true)
    };
    let other_time = {
        let c = client_with_token("abc", "s3cr3t", "tok");
        let sts = c.string_to_sign("GET", "", url);
        c.sign(&1_690_000_000_001u128, &sts, &42u32, true)
    };
    let other_nonce = {
        let c = client_with_token("abc", "s3cr3t", "tok");
        let sts = c.string_to_sign("GET", "", url);
        c.sign(&1_690_000_000_000u128, &sts, &43u32, true)
    };
    let other_method = {
        let c = client_with_token("abc", "s3cr3t", "tok");
        let sts = c.string_to_sign("PUT", "", url);
        c.sign(&1_690_000_000_000u128, &sts, &42u32, true)
    };
    let other_url = {
        let c = client_with_token("abc", "s3cr3t", "tok");
        let sts = c.string_to_sign("GET", "", "/v1.0/devices/d2/statistics/months");
        c.sign(&1_690_000_000_000u128, &sts, &42u32, true)
    };
    let non_business = {
        let c = client_with_token("abc", "s3cr3t", "tok");
        let sts = c.string_to_sign("GET", "", url);
        c.sign(&1_690_000_000_000u128, &sts, &42u32, false)
    };
    for other in [
        &other_id,
        &other_secret,
        &other_token,
        &other_time,
        &other_nonce,
        &other_method,
        &other_url,
        &non_business,
    ] {
        assert_ne!(&base, other);
    }
}

#[test]
fn string_to_sign_has_fixed_shape() {
    let c = TuyaClient::new("https://openapi.example.com", "abc", "s3cr3t");
    let sts = c.string_to_sign("GET", "", "/v1.0/token?grant_type=1");
    let empty_digest = format!("{:x}", sha2::Sha256::digest(b""));
    assert_eq!(sts, format!("GET\n{empty_digest}\n\n/v1.0/token?grant_type=1"));
    assert_eq!(
        empty_digest,
        "e3b0c44298fc1c149afbf4c8996fb92427ae41e4649b934ca495991b7852b855"
    );
}

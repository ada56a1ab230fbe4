use tuya_meter::auth::{TokenResponse, TokenState};
use tuya_meter::client::TuyaClient;

fn grant(access: &str, refresh: &str, expire_time: u128) -> TokenResponse {
    TokenResponse {
        access_token: access.to_owned(),
        refresh_token: refresh.to_owned(),
        expire_time,
        uid: "uid-1".to_owned(),
    }
}

#[test]
fn empty_credential_plans_initial_grant() {
    let c = TuyaClient::new("https://openapi.example.com", "abc", "s3cr3t");
    assert_eq!(c.token_state(1_000), TokenState::Empty);
    let plan = c.plan_token_request(1_000).expect("empty credential needs a grant");
    assert_eq!(plan.path, "/v1.0/token");
    assert_eq!(plan.params.len(), 1);
    assert_eq!(plan.params[0].0, "grant_type");
    assert_eq!(plan.params[0].1, "1");
}

#[test]
fn token_caching_window() {
    let mut c = TuyaClient::new("https://openapi.example.com", "abc", "s3cr3t");
    let now = 1_000_000;
    c.apply_token_response(now, grant("tok-1", "ref-1", 7_200_000));

    // Within the window: a cache hit, no request is planned.
    assert_eq!(c.token_state(now + 1), TokenState::Valid);
    assert!(c.plan_token_request(now + 1).is_none());
    assert!(c.plan_token_request(now + 7_199_999).is_none());

    // At the window's end: expired, exactly one refresh is planned,
    // through the stored refresh token.
    assert_eq!(c.token_state(now + 7_200_000), TokenState::Expired);
    let plan = c.plan_token_request(now + 7_200_000).expect("expired token needs a refresh");
    assert_eq!(plan.path, "/v1.0/token/ref-1");
    assert_eq!(plan.params.len(), 1);
    assert_eq!(plan.params[0].0, "grant_type");
    assert_eq!(plan.params[0].1, "1");
}

#[test]
fn grant_replaces_credential_atomically() {
    let mut c = TuyaClient::new("https://openapi.example.com", "abc", "s3cr3t");
    c.apply_token_response(100, grant("tok-1", "ref-1", 1_000));
    assert_eq!(c.token_state(100), TokenState::Valid);
    assert_eq!(c.token_state(1_100), TokenState::Expired);
    c.apply_token_response(1_100, grant("tok-2", "ref-2", 2_000));
    assert_eq!(c.token_state(1_100), TokenState::Valid);
    let plan = c.plan_token_request(5_000).expect("expired again");
    assert_eq!(plan.path, "/v1.0/token/ref-2");
}

#[test]
fn validity_check_is_strict() {
    let mut c = TuyaClient::new("https://openapi.example.com", "abc", "s3cr3t");
    c.apply_token_response(0, grant("tok", "ref", 500));
    assert_eq!(c.token_state(499), TokenState::Valid);
    assert_eq!(c.token_state(500), TokenState::Expired);
}

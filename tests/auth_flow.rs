use authgate::auth::{check_credentials, login, register, AuthError, TOKEN_TTL};
use authgate::codec::{claims_json, decode, issue, parse_claims, Claims, Keys, TokenError};
use authgate::gate::{bearer_token, pass_gate, GateError};
use authgate::routes::{matches_path, service_routes, Dispatch, Method, RouteTable};
use authgate::text::read_decimal;

const ALICE: u128 = 0x550e8400_e29b_41d4_a716_446655440000;

fn keys() -> Keys {
    Keys::new(b"process-wide signing secret".to_vec())
}

/// A user store as the service would keep it: name, password, subject.
fn store_lookup(username: &str, password: &str) -> Option<u128> {
    let users = vec![("alice", "correctpw", ALICE), ("bob", "hunter2", 7u128)];
    users
        .into_iter()
        .find(|(u, p, _)| *u == username && *p == password)
        .map(|(_, _, id)| id)
}

#[test]
fn issued_token_decodes_before_expiry() {
    let k = keys();
    let t = issue(&k, ALICE, 3600, 1_000).unwrap();
    assert_eq!(decode(&k, &t, 1_000), Ok(Claims { sub: ALICE, exp: 4_600 }));
    assert_eq!(decode(&k, &t, 4_599), Ok(Claims { sub: ALICE, exp: 4_600 }));
}

#[test]
fn token_is_expired_from_its_expiry_on() {
    let k = keys();
    let t = issue(&k, ALICE, 3600, 1_000).unwrap();
    assert_eq!(decode(&k, &t, 4_600), Err(TokenError::Expired));
    assert_eq!(decode(&k, &t, 90_000), Err(TokenError::Expired));
}

#[test]
fn token_of_another_key_is_invalid() {
    let other = Keys::new(b"another secret".to_vec());
    let t = issue(&other, ALICE, 3600, 1_000).unwrap();
    assert_eq!(decode(&keys(), &t, 1_000), Err(TokenError::Invalid));
}

#[test]
fn garbage_token_is_invalid() {
    assert_eq!(decode(&keys(), "not.a.token", 0), Err(TokenError::Invalid));
    assert_eq!(decode(&keys(), "", 0), Err(TokenError::Invalid));
}

#[test]
fn token_is_signed_not_plain_claims() {
    let k = keys();
    let t = issue(&k, ALICE, 10, 0).unwrap();
    assert_eq!(t.split('.').count(), 3);
    assert!(!t.contains("\"sub\""));
}

#[test]
fn decoding_twice_gives_the_same_claims() {
    let k = keys();
    let t = issue(&k, 42, 100, 5).unwrap();
    let first = decode(&k, &t, 50);
    let second = decode(&k, &t, 50);
    assert_eq!(first, second);
    assert_eq!(first, Ok(Claims { sub: 42, exp: 105 }));
}

#[test]
fn issue_refuses_expiry_beyond_u64() {
    assert_eq!(issue(&keys(), ALICE, 2, u64::MAX - 1), None);
}

#[test]
fn claims_text_is_exact() {
    let c = Claims { sub: ALICE, exp: 42 };
    assert_eq!(
        claims_json(&c),
        "{\"sub\":\"550e8400-e29b-41d4-a716-446655440000\",\"exp\":42}"
    );
    assert_eq!(
        claims_json(&Claims { sub: 0, exp: 0 }),
        "{\"sub\":\"00000000-0000-0000-0000-000000000000\",\"exp\":0}"
    );
}

#[test]
fn claims_text_reads_back() {
    let text = "{\"sub\":\"550e8400-e29b-41d4-a716-446655440000\",\"exp\":1700000000}";
    assert_eq!(parse_claims(text), Some(Claims { sub: ALICE, exp: 1_700_000_000 }));
    let c = Claims { sub: u128::MAX, exp: u64::MAX };
    assert_eq!(parse_claims(&claims_json(&c)), Some(c));
}

#[test]
fn claims_text_in_another_form_is_refused() {
    let upper = "{\"sub\":\"550E8400-E29B-41D4-A716-446655440000\",\"exp\":42}";
    assert_eq!(parse_claims(upper), None);
    let leading_zero = "{\"sub\":\"550e8400-e29b-41d4-a716-446655440000\",\"exp\":042}";
    assert_eq!(parse_claims(leading_zero), None);
    let spaced = "{\"sub\": \"550e8400-e29b-41d4-a716-446655440000\",\"exp\":42}";
    assert_eq!(parse_claims(spaced), None);
    assert_eq!(parse_claims(""), None);
}

#[test]
fn decimal_reading() {
    assert_eq!(read_decimal("0", 0, 1), Some(0));
    assert_eq!(read_decimal("x123y", 1, 4), Some(123));
    assert_eq!(read_decimal("18446744073709551615", 0, 20), Some(u64::MAX));
    assert_eq!(read_decimal("18446744073709551616", 0, 20), None);
    assert_eq!(read_decimal("00", 0, 2), None);
    assert_eq!(read_decimal("12a", 0, 3), None);
    assert_eq!(read_decimal("", 0, 0), None);
}

#[test]
fn empty_credentials_are_missing() {
    assert_eq!(check_credentials("", "x"), Err(AuthError::MissingCredentials));
    assert_eq!(check_credentials("x", ""), Err(AuthError::MissingCredentials));
    assert_eq!(check_credentials("", ""), Err(AuthError::MissingCredentials));
    assert_eq!(check_credentials("x", "y"), Ok(()));
}

#[test]
fn login_with_correct_password() {
    let k = keys();
    let now = 1_700_000_000;
    assert_eq!(check_credentials("alice", "correctpw"), Ok(()));
    let body = login(&k, store_lookup("alice", "correctpw"), now).unwrap();
    assert_eq!(body.subject, ALICE);
    let claims = decode(&k, &body.token, now + 1).unwrap();
    assert_eq!(claims.sub, ALICE);
    assert_eq!(claims.exp, now + TOKEN_TTL);
}

#[test]
fn login_with_wrong_password() {
    assert_eq!(check_credentials("alice", "wrongpw"), Ok(()));
    let r = login(&keys(), store_lookup("alice", "wrongpw"), 0);
    assert!(matches!(r, Err(AuthError::WrongCredentials)));
}

#[test]
fn login_token_lasts_a_day() {
    let k = keys();
    let body = login(&k, Some(9), 100).unwrap();
    assert_eq!(decode(&k, &body.token, 100 + 86_399).map(|c| c.sub), Ok(9));
    assert_eq!(decode(&k, &body.token, 100 + 86_400), Err(TokenError::Expired));
}

#[test]
fn login_past_the_last_second_fails_to_make_a_token() {
    let r = login(&keys(), Some(9), u64::MAX);
    assert!(matches!(r, Err(AuthError::TokenCreation)));
}

#[test]
fn register_outcomes() {
    let k = keys();
    assert!(matches!(register(&k, None, 0), Err(AuthError::WrongCredentials)));
    let body = register(&k, Some(77), 0).unwrap();
    assert_eq!(body.subject, 77);
    assert_eq!(decode(&k, &body.token, 1).map(|c| c.sub), Ok(77));
}

#[test]
fn bearer_token_extraction() {
    assert_eq!(bearer_token("Bearer abc"), Some("abc"));
    assert_eq!(bearer_token("Bearer "), None);
    assert_eq!(bearer_token("Basic abc"), None);
    assert_eq!(bearer_token(""), None);
}

#[test]
fn gate_rejects_missing_empty_or_foreign_tokens() {
    let k = keys();
    assert_eq!(pass_gate(&k, None, 0), Err(GateError::MissingToken));
    assert_eq!(pass_gate(&k, Some(""), 0), Err(GateError::MissingToken));
    assert_eq!(pass_gate(&k, Some("Bearer "), 0), Err(GateError::MissingToken));
    let foreign = issue(&Keys::new(b"elsewhere".to_vec()), ALICE, 60, 0).unwrap();
    let header = format!("Bearer {}", foreign);
    assert_eq!(
        pass_gate(&k, Some(&header), 0),
        Err(GateError::Token(TokenError::Invalid))
    );
}

#[test]
fn gate_passes_sound_token_with_subject() {
    let k = keys();
    let t = issue(&k, ALICE, 60, 0).unwrap();
    let header = format!("Bearer {}", t);
    assert_eq!(pass_gate(&k, Some(&header), 30), Ok(ALICE));
    assert_eq!(
        pass_gate(&k, Some(&header), 60),
        Err(GateError::Token(TokenError::Expired))
    );
}

#[test]
fn path_patterns() {
    assert!(matches_path("/", "/"));
    assert!(matches_path("/users/:id", "/users/7"));
    assert!(!matches_path("/users/:id", "/users/"));
    assert!(!matches_path("/users/:id", "/users/7/x"));
    assert!(matches_path("/users/search/:username", "/users/search/alice"));
    assert!(!matches_path("/users", "/user"));
    assert!(!matches_path("/users", "/users/"));
}

#[test]
fn authorize_is_public_and_users_is_protected() {
    let k = keys();
    let table = service_routes();
    assert_eq!(
        table.dispatch(&k, Method::Post, "/authorize", None, 0),
        Dispatch::Serve { route: 12, subject: None }
    );
    assert_eq!(
        table.dispatch(&k, Method::Get, "/users", None, 0),
        Dispatch::Refused(GateError::MissingToken)
    );
    let t = issue(&k, ALICE, 60, 0).unwrap();
    let header = format!("Bearer {}", t);
    assert_eq!(
        table.dispatch(&k, Method::Get, "/users", Some(&header), 1),
        Dispatch::Serve { route: 1, subject: Some(ALICE) }
    );
    assert_eq!(
        table.dispatch(&k, Method::Get, "/image/logo.png", Some(&header), 1),
        Dispatch::Serve { route: 11, subject: Some(ALICE) }
    );
}

#[test]
fn unmatched_request_is_not_found() {
    let table = service_routes();
    assert_eq!(table.dispatch(&keys(), Method::Get, "/nowhere", None, 0), Dispatch::NotFound);
    assert_eq!(table.dispatch(&keys(), Method::Get, "/authorize", None, 0), Dispatch::NotFound);
}

#[test]
fn gate_covers_only_routes_added_before_it() {
    let mut table = RouteTable::new();
    table.route(Method::Get, "/private");
    table.gate_existing();
    table.route(Method::Get, "/open");
    table.protected_route(Method::Get, "/admin");
    assert_eq!(
        table.dispatch(&keys(), Method::Get, "/private", None, 0),
        Dispatch::Refused(GateError::MissingToken)
    );
    assert_eq!(
        table.dispatch(&keys(), Method::Get, "/open", None, 0),
        Dispatch::Serve { route: 1, subject: None }
    );
    assert_eq!(
        table.dispatch(&keys(), Method::Get, "/admin", None, 0),
        Dispatch::Refused(GateError::MissingToken)
    );
}

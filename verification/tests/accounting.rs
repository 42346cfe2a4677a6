use std::time::{Duration, SystemTime};

use cg_bridge::auth::{authorized, configured_key, credential_matches};
use cg_bridge::clock::{now_unix, unix_seconds};
use cg_bridge::gemini::UsageMetadata;
use cg_bridge::ids::new_id;
use cg_bridge::usage::{map_usage, token_count};

use axum::http::{HeaderMap, HeaderValue};

#[test]
fn missing_and_negative_counts_are_zero() {
    assert_eq!(token_count(None), 0);
    assert_eq!(token_count(Some(-5)), 0);
    assert_eq!(token_count(Some(i32::MIN)), 0);
    assert_eq!(token_count(Some(7)), 7);
    assert_eq!(token_count(Some(i32::MAX)), 2_147_483_647);
}

#[test]
fn output_counts_the_thoughts_in() {
    let usage = map_usage(&UsageMetadata {
        cached_content_token_count: Some(3),
        candidates_token_count: Some(20),
        prompt_token_count: Some(100),
        thoughts_token_count: Some(30),
        total_token_count: Some(150),
    });
    assert_eq!(usage.input_tokens, 100);
    assert_eq!(usage.input_tokens_details.cached_tokens, 3);
    assert_eq!(usage.output_tokens, 50);
    assert_eq!(usage.output_tokens_details.reasoning_tokens, 30);
    assert_eq!(usage.total_tokens, 150);
    assert_eq!(usage.input_tokens + usage.output_tokens, usage.total_tokens);
    assert!(usage.output_tokens_details.reasoning_tokens <= usage.output_tokens);
}

#[test]
fn large_output_counts_do_not_wrap() {
    let usage = map_usage(&UsageMetadata {
        cached_content_token_count: None,
        candidates_token_count: Some(i32::MAX),
        prompt_token_count: None,
        thoughts_token_count: Some(i32::MAX),
        total_token_count: None,
    });
    assert_eq!(usage.output_tokens, 4_294_967_294);
    assert_eq!(usage.input_tokens, 0);
    assert_eq!(usage.total_tokens, 0);
}

fn with_authorization(value: &str) -> HeaderMap<HeaderValue> {
    let mut headers: HeaderMap<HeaderValue> = HeaderMap::new();
    headers.insert("authorization", HeaderValue::from_str(value).unwrap());
    headers
}

#[test]
fn an_open_bridge_lets_everyone_in() {
    assert!(authorized(&HeaderMap::new(), None));
    assert!(authorized(&with_authorization("Bearer whatever"), None));
}

#[test]
fn a_keyed_bridge_asks_for_exactly_the_key() {
    let key = "k1".to_string();
    assert!(authorized(&with_authorization("Bearer k1"), Some(&key)));
    assert!(!authorized(&with_authorization("Bearer k2"), Some(&key)));
    assert!(!authorized(&with_authorization("Bearer k12"), Some(&key)));
    assert!(!authorized(&with_authorization("bearer k1"), Some(&key)));
    assert!(!authorized(&with_authorization("k1"), Some(&key)));
    assert!(!authorized(&HeaderMap::new(), Some(&key)));
}

#[test]
fn an_opaque_header_is_no_credential() {
    let mut headers: HeaderMap<HeaderValue> = HeaderMap::new();
    headers.insert("authorization", HeaderValue::from_bytes(b"Bearer \xff").unwrap());
    assert!(!authorized(&headers, Some(&"\u{ff}".to_string())));
}

#[test]
fn only_the_first_credential_counts() {
    let mut headers = with_authorization("Bearer wrong");
    headers.append("authorization", HeaderValue::from_static("Bearer k1"));
    assert!(!authorized(&headers, Some(&"k1".to_string())));
}

#[test]
fn credentials_compare_whole() {
    assert!(credential_matches("Bearer ", ""));
    assert!(credential_matches("Bearer a b", "a b"));
    assert!(!credential_matches("Bearer", ""));
}

#[test]
fn an_empty_key_is_no_key() {
    assert_eq!(configured_key(None), None);
    assert_eq!(configured_key(Some(String::new())), None);
    assert_eq!(configured_key(Some("k".to_string())), Some("k".to_string()));
}

#[test]
fn the_clock_counts_from_the_epoch() {
    assert_eq!(unix_seconds(SystemTime::UNIX_EPOCH), 0);
    assert_eq!(unix_seconds(SystemTime::UNIX_EPOCH + Duration::from_millis(5_900)), 5);
    assert_eq!(unix_seconds(SystemTime::UNIX_EPOCH - Duration::from_secs(5)), 0);
    assert!(now_unix() > 1_600_000_000);
}

#[test]
fn identifiers_are_prefixed_uuids() {
    let id = new_id("resp_");
    assert_eq!(id.len(), 37);
    assert!(id.starts_with("resp_"));
    let digits: Vec<char> = id.chars().skip(5).collect();
    assert!(digits.iter().all(|c| matches!(c, '0'..='9' | 'a'..='f')));
    assert_eq!(digits[12], '4');
    assert!(matches!(digits[16], '8' | '9' | 'a' | 'b'));
    assert_ne!(id, new_id("resp_"));
}

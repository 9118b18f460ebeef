use base64::engine::general_purpose::URL_SAFE_NO_PAD;
use base64::Engine;
use m365_copilot_proxy::json::print_json;
use m365_copilot_proxy::token_store::{
    clean_env_value, decode_jwt_payload, is_substrate_token, needs_substrate_token_at,
    needs_substrate_token_by, read_env_token, seconds_remaining, seconds_remaining_at,
    seconds_remaining_by, token_status_at, write_token, AccessTokenStore,
};

const AUDIENCE: &str = "https://substrate.office.com/sydney";

fn jwt(payload: &str) -> String {
    format!("h.{}.s", URL_SAFE_NO_PAD.encode(payload))
}

fn token(exp: i64) -> String {
    jwt(&format!("{{\"aud\":\"{AUDIENCE}\",\"exp\":{exp}}}"))
}

#[test]
fn claims_are_decoded_with_and_without_padding() {
    let plain = jwt("{\"a\":1}");
    assert_eq!(print_json(&decode_jwt_payload(&plain).unwrap()), "{\"a\":1}");
    let padded = format!("h.{}==.s", URL_SAFE_NO_PAD.encode("{\"a\":1}"));
    assert_eq!(print_json(&decode_jwt_payload(&padded).unwrap()), "{\"a\":1}");
}

#[test]
fn undecodable_tokens_say_why() {
    assert_eq!(decode_jwt_payload("nodots").err().as_deref(), Some("invalid JWT"));
    let wanted = URL_SAFE_NO_PAD.decode("!!").unwrap_err().to_string();
    assert_eq!(decode_jwt_payload("h.!!.s").err(), Some(wanted));
    let wanted = serde_json::from_slice::<serde_json::Value>(b"{").unwrap_err().to_string();
    assert_eq!(decode_jwt_payload(&jwt("{")).err(), Some(wanted));
}

#[test]
fn the_audience_decides() {
    assert!(is_substrate_token(&jwt("{\"aud\":\"https://substrate.office.com/\"}")));
    assert!(!is_substrate_token(&jwt("{\"aud\":\"https://substrate.office.com\"}")));
    assert!(!is_substrate_token(&jwt("{\"aud\":7}")));
    assert!(!is_substrate_token("x"));
}

#[test]
fn remaining_seconds_count_down() {
    assert_eq!(seconds_remaining_at(&token(1000), 400).unwrap(), 600);
    assert_eq!(seconds_remaining_at(&token(1000), 1600).unwrap(), -600);
    assert_eq!(
        seconds_remaining_at(&jwt("{}"), 0).err().as_deref(),
        Some("missing exp claim")
    );
    assert_eq!(seconds_remaining(&jwt("{}")).err().as_deref(), Some("missing exp claim"));
    assert_eq!(seconds_remaining("x").err().as_deref(), Some("invalid JWT"));
}

#[test]
fn a_token_is_needed_when_it_is_missing_foreign_or_over() {
    assert!(needs_substrate_token_at(None, 0));
    assert!(needs_substrate_token_by(Some(&token(1000)), None));
    assert!(needs_substrate_token_by(Some(&token(1000)), Some(1000)));
    assert!(!needs_substrate_token_by(Some(&token(1000)), Some(999)));
    assert!(needs_substrate_token_at(Some(&jwt("{\"aud\":\"x\",\"exp\":9}")), 0));
    assert!(needs_substrate_token_at(Some(&token(1000)), 1000));
    assert!(!needs_substrate_token_at(Some(&token(1000)), 999));
}

#[test]
fn status_has_an_exact_expiry() {
    let status = token_status_at(&token(1_700_000_000), 1_699_999_000);
    assert!(status.valid);
    assert_eq!(status.error, None);
    assert_eq!(status.expires_at.as_deref(), Some("2023-11-14T22:13:20+00:00"));
    assert_eq!(status.seconds_remaining, 1000);
    assert_eq!(
        print_json(&status.to_json()),
        "{\"expires_at\":\"2023-11-14T22:13:20+00:00\",\"seconds_remaining\":1000,\"valid\":true}"
    );
}

#[test]
fn status_of_an_expired_or_broken_token() {
    let status = token_status_at(&token(1000), 2000);
    assert!(!status.valid);
    assert_eq!(status.seconds_remaining, 0);
    assert_eq!(status.error, None);
    let status = token_status_at("x", 0);
    assert_eq!(status.error.as_deref(), Some("Cannot decode access token: invalid JWT"));
    assert_eq!(status.expires_at, None);
    assert_eq!(
        print_json(&status.to_json()),
        "{\"error\":\"Cannot decode access token: invalid JWT\",\"seconds_remaining\":0,\"valid\":false}"
    );
}

#[test]
fn a_year_out_of_range_has_no_expiry_text() {
    let status = token_status_at(&token(i64::MAX), 0);
    assert!(status.valid);
    assert_eq!(status.expires_at, None);
}

#[test]
fn valid_and_needed_are_opposites() {
    for exp in [0, 999, 1000, 1001] {
        let t = token(exp);
        assert_eq!(token_status_at(&t, 1000).valid, !needs_substrate_token_at(Some(&t), 1000));
    }
}

#[test]
fn values_are_cleaned() {
    for (raw, clean) in [
        (" x ", "x"),
        ("'x'", "x"),
        ("\"x y\"", "x y"),
        ("'x\"", "'x\""),
        ("'", "'"),
        ("''", ""),
        ("", ""),
    ] {
        assert_eq!(clean_env_value(raw), clean);
    }
}

#[test]
fn the_first_assignment_is_read() {
    let file = "# M365_ACCESS_TOKEN=no\n\nOTHER=1\n M365_ACCESS_TOKEN = 'a' \nM365_ACCESS_TOKEN=b\n";
    assert_eq!(read_env_token(file).as_deref(), Some("a"));
    assert_eq!(read_env_token("OTHER=1\nM365_ACCESS_TOKENS=x"), None);
    assert_eq!(read_env_token("M365_ACCESS_TOKEN="), Some(String::new()));
}

#[test]
fn writing_replaces_appends_or_makes() {
    assert_eq!(write_token(None, "t"), "M365_ACCESS_TOKEN=t\n");
    assert_eq!(write_token(Some(""), "t"), "M365_ACCESS_TOKEN=t\n");
    assert_eq!(write_token(Some("A=1"), "t"), "A=1\nM365_ACCESS_TOKEN=t\n");
    assert_eq!(write_token(Some("A=1\n"), "t"), "A=1\nM365_ACCESS_TOKEN=t\n");
    assert_eq!(
        write_token(Some("M365_ACCESS_TOKEN=old\nA=1\n"), "t"),
        "M365_ACCESS_TOKEN=t\nA=1"
    );
}

#[test]
fn what_is_written_is_read_back() {
    for file in [None, Some(""), Some("A=1"), Some("#x\nM365_ACCESS_TOKEN='old'\nB=2\n")] {
        assert_eq!(read_env_token(&write_token(file, "a.b.c")).as_deref(), Some("a.b.c"));
    }
    let shadowed = write_token(Some("M365_ACCESS_TOKEN = old\n"), "new");
    assert_eq!(read_env_token(&shadowed).as_deref(), Some("old"));
}

#[test]
fn a_store_reads_its_file_when_it_changed() {
    let mut store = AccessTokenStore::new("first".to_string(), "here/.env", Some(1));
    assert_eq!(store.env_path(), "here/.env");
    assert!(!store.needs_reload(Some(1)));
    assert!(!store.needs_reload(None));
    assert!(store.needs_reload(Some(2)));
    assert_eq!(store.get(Some(1), Some("M365_ACCESS_TOKEN=second")), "first");
    assert_eq!(store.get(Some(2), Some("OTHER=1")), "first");
    assert!(store.needs_reload(Some(2)));
    assert_eq!(store.get(Some(2), Some("M365_ACCESS_TOKEN=second")), "second");
    assert!(!store.needs_reload(Some(2)));
    let written = write_token(Some("M365_ACCESS_TOKEN=second"), "third");
    assert_eq!(store.get(Some(3), Some(&written)), "third");
}

#[test]
fn time_left_by_the_clock() {
    let broken = || Err("no clock".to_string());
    assert_eq!(seconds_remaining_by(&token(1000), Ok(400)), Ok(600));
    assert_eq!(seconds_remaining_by(&token(1000), broken()), broken());
    assert_eq!(
        seconds_remaining_by(&jwt("{}"), broken()),
        Err("missing exp claim".to_string())
    );
    assert_eq!(
        seconds_remaining_by("x", broken()),
        Err(decode_jwt_payload("x").err().unwrap())
    );
}

use statusphere::api::status_util::{
    check_delete, hide_status, parse_duration, status_from_form, DeleteError, DeleteRequest,
    HideError, HideStatusRequest, StatusForm, ADMIN_DID, MAX_DURATION_SECS,
};
use statusphere::config::{parse_bool, parse_port, Config, ConfigError, Settings};
use statusphere::db::models::{StatusFromDb, StatusStore};
use statusphere::time::Timestamp;

#[test]
fn durations_are_a_number_and_a_unit() {
    assert_eq!(parse_duration("30m"), Some(1800));
    assert_eq!(parse_duration("1h"), Some(3600));
    assert_eq!(parse_duration("1d"), Some(86400));
    assert_eq!(parse_duration("2w"), Some(1209600));
    assert_eq!(parse_duration("0m"), Some(0));
    assert_eq!(parse_duration("+5m"), Some(300));
    assert_eq!(parse_duration("-5m"), Some(-300));
    assert_eq!(parse_duration("007h"), Some(25200));
}

#[test]
fn other_texts_are_no_duration() {
    for bad in ["", "m", "h", "10", "10s", "10M", "1.5h", " 1h", "1h ", "1 h", "h1", "--1h", "+h", "1é"] {
        assert_eq!(parse_duration(bad), None, "{:?}", bad);
    }
}

#[test]
fn durations_are_bounded() {
    assert_eq!(MAX_DURATION_SECS, i64::MAX / 1000);
    assert_eq!(parse_duration("153722867280912m"), Some(9223372036854720));
    assert_eq!(parse_duration("153722867280913m"), None);
    assert_eq!(parse_duration("-153722867280913m"), None);
    assert_eq!(parse_duration("9223372036854775807w"), None);
    assert_eq!(parse_duration("9223372036854775808m"), None);
    assert_eq!(parse_duration("99999999999999999999999999999999m"), None);
}

fn form(expires_in: Option<&str>) -> StatusForm {
    StatusForm {
        status: "🚀".into(),
        text: Some("shipping".into()),
        expires_in: expires_in.map(|s| s.to_string()),
    }
}

#[test]
fn a_form_without_expiry_sets_a_status_that_stays() {
    let now = Timestamp { secs: 1704067200, nanos: 42 };
    let s = status_from_form("at://did:plc:abc/c/1", "did:plc:abc", &form(None), now);
    assert_eq!(s.uri, "at://did:plc:abc/c/1");
    assert_eq!(s.author_did, "did:plc:abc");
    assert_eq!(s.status, "🚀");
    assert_eq!(s.text.as_deref(), Some("shipping"));
    assert_eq!(s.started_at, now);
    assert_eq!(s.indexed_at, now);
    assert_eq!(s.expires_at, None);
    assert_eq!(s.handle, None);
}

#[test]
fn a_form_with_expiry_sets_the_time_it_ends() {
    let now = Timestamp { secs: 1704067200, nanos: 42 };
    let s = status_from_form("u", "d", &form(Some("1h")), now);
    assert_eq!(s.expires_at, Some(Timestamp { secs: 1704070800, nanos: 42 }));
    assert_eq!(status_from_form("u", "d", &form(Some("soon")), now).expires_at, None);
    let late = Timestamp { secs: i64::MAX - 10, nanos: 0 };
    assert_eq!(status_from_form("u", "d", &form(Some("1m")), late).expires_at, None);
}

fn delete(uri: &str) -> DeleteRequest {
    DeleteRequest { uri: uri.into() }
}

#[test]
fn only_the_author_may_delete() {
    let uri = "at://did:plc:abc/io.zzstoatzz.status.record/3k2x9";
    assert_eq!(check_delete(Some("did:plc:abc"), &delete(uri)), Ok("3k2x9".to_string()));
    assert_eq!(check_delete(Some("did:plc:xyz"), &delete(uri)), Err(DeleteError::NotOwner));
    assert_eq!(check_delete(None, &delete(uri)), Err(DeleteError::NotAuthenticated));
}

#[test]
fn a_uri_needs_five_parts() {
    assert_eq!(
        check_delete(Some("did:plc:abc"), &delete("at://did:plc:abc/collection")),
        Err(DeleteError::InvalidUri)
    );
    assert_eq!(check_delete(Some("did:plc:abc"), &delete("")), Err(DeleteError::InvalidUri));
    assert_eq!(
        check_delete(Some("did:plc:abc"), &delete("at://did:plc:abc/c/k/extra")),
        Ok("extra".to_string())
    );
    assert_eq!(check_delete(Some("did:plc:abc"), &delete("at://did:plc:abc/c/")), Ok(String::new()));
}

#[test]
fn status_errors_have_their_codes() {
    assert_eq!(DeleteError::NotAuthenticated.status_code(), 401);
    assert_eq!(DeleteError::InvalidUri.status_code(), 400);
    assert_eq!(DeleteError::NotOwner.status_code(), 403);
    assert_eq!(HideError::NotAuthenticated.status_code(), 401);
    assert_eq!(HideError::Forbidden.status_code(), 403);
    assert_eq!(HideError::NotFound.status_code(), 404);
}

#[test]
fn delete_errors_have_their_wording() {
    assert_eq!(DeleteError::NotAuthenticated.message(), "Not authenticated");
    assert_eq!(DeleteError::InvalidUri.message(), "Invalid status URI format");
    assert_eq!(DeleteError::NotOwner.message(), "You can only delete your own statuses");
}

#[test]
fn only_the_administrator_hides() {
    let mut store = StatusStore::new();
    StatusFromDb::new_at("at://a/c/1".into(), "a".into(), "🚀".into(), Timestamp::from_secs(1))
        .save_or_update(&mut store);
    let hide = HideStatusRequest { uri: "at://a/c/1".into(), hidden: true };
    let show = HideStatusRequest { uri: "at://a/c/1".into(), hidden: false };
    let gone = HideStatusRequest { uri: "at://a/c/2".into(), hidden: true };

    assert_eq!(hide_status(&mut store, None, &hide), Err(HideError::NotAuthenticated));
    assert_eq!(hide_status(&mut store, Some("a"), &hide), Err(HideError::Forbidden));
    assert_eq!(store.is_hidden("at://a/c/1"), Some(false));
    assert_eq!(hide_status(&mut store, Some(ADMIN_DID), &hide), Ok("Status hidden"));
    assert_eq!(store.is_hidden("at://a/c/1"), Some(true));
    assert_eq!(hide_status(&mut store, Some(ADMIN_DID), &show), Ok("Status unhidden"));
    assert_eq!(store.is_hidden("at://a/c/1"), Some(false));
    assert_eq!(hide_status(&mut store, Some(ADMIN_DID), &gone), Err(HideError::NotFound));
    assert_eq!(HideError::NotAuthenticated.message(), "Not authenticated");
    assert_eq!(HideError::Forbidden.message(), "Admin access required");
    assert_eq!(HideError::NotFound.message(), "Status not found");
}

fn no_settings() -> Settings {
    Settings {
        owner_handle: None,
        database_url: None,
        oauth_redirect_base: None,
        app_url: None,
        server_host: None,
        server_port: None,
        enable_firehose: None,
        log_level: None,
        dev_mode: None,
        emoji_dir: None,
    }
}

#[test]
fn absent_settings_take_their_defaults() {
    let c = Config::from_settings(&no_settings()).unwrap();
    assert_eq!(c.admin_did, "did:plc:xbtmt2zjwlrfegqvch7fboei");
    assert_eq!(c.owner_handle, "zzstoatzz.io");
    assert_eq!(c.database_url, "sqlite://./statusphere.sqlite3");
    assert_eq!(c.oauth_redirect_base, "http://localhost:8080");
    assert_eq!(c.app_url, "http://localhost:8080");
    assert_eq!(c.server_host, "127.0.0.1");
    assert_eq!(c.server_port, 8080);
    assert!(!c.enable_firehose);
    assert_eq!(c.log_level, "info");
    assert!(!c.dev_mode);
    assert_eq!(c.emoji_dir, "static/emojis");
    assert!(!c.is_production());
    assert!(!c.uses_separate_auth_domain());
}

#[test]
fn settings_override_defaults() {
    let mut vars = no_settings();
    vars.owner_handle = Some("alice.test".into());
    vars.oauth_redirect_base = Some("https://auth.example".into());
    vars.app_url = Some("https://status.example".into());
    vars.server_port = Some("9090".into());
    vars.enable_firehose = Some("true".into());
    vars.dev_mode = Some("false".into());
    vars.emoji_dir = Some("/data/emojis".into());
    let c = Config::from_settings(&vars).unwrap();
    assert_eq!(c.owner_handle, "alice.test");
    assert_eq!(c.server_port, 9090);
    assert!(c.enable_firehose);
    assert!(!c.dev_mode);
    assert_eq!(c.emoji_dir, "/data/emojis");
    assert!(c.is_production());
    assert!(c.uses_separate_auth_domain());
}

#[test]
fn unreadable_numbers_and_switches_fall_back() {
    let mut vars = no_settings();
    vars.server_port = Some("eighty".into());
    vars.enable_firehose = Some("yes".into());
    vars.dev_mode = Some("TRUE".into());
    let c = Config::from_settings(&vars).unwrap();
    assert_eq!(c.server_port, 8080);
    assert!(!c.enable_firehose);
    assert!(!c.dev_mode);
}

#[test]
fn urls_that_do_not_parse_are_refused() {
    let mut vars = no_settings();
    vars.oauth_redirect_base = Some("not a url".into());
    vars.app_url = Some("also not".into());
    assert_eq!(
        Config::from_settings(&vars).map(|c| c.server_port),
        Err(ConfigError::InvalidOauthRedirectBase)
    );
    vars.oauth_redirect_base = None;
    assert_eq!(
        Config::from_settings(&vars).map(|c| c.server_port),
        Err(ConfigError::InvalidAppUrl)
    );
    assert_eq!(
        ConfigError::InvalidOauthRedirectBase.message(),
        "Invalid OAUTH_REDIRECT_BASE URL configuration"
    );
    assert_eq!(ConfigError::InvalidAppUrl.message(), "Invalid APP_URL configuration");
}

#[test]
fn ports_parse_as_unsigned_sixteen_bit_numbers() {
    for (text, port) in [
        ("0", Some(0u16)),
        ("8080", Some(8080)),
        ("65535", Some(65535)),
        ("+80", Some(80)),
        ("00000000000000000000000080", Some(80)),
        ("65536", None),
        ("-0", None),
        ("-1", None),
        ("", None),
        ("+", None),
        ("80 ", None),
        ("8o", None),
    ] {
        assert_eq!(parse_port(text), port, "{:?}", text);
        assert_eq!(parse_port(text), text.parse::<u16>().ok(), "{:?}", text);
    }
}

#[test]
fn truth_values_are_two_words() {
    assert_eq!(parse_bool("true"), Some(true));
    assert_eq!(parse_bool("false"), Some(false));
    for bad in ["", "True", "1", "yes", " true", "true "] {
        assert_eq!(parse_bool(bad), None);
    }
}

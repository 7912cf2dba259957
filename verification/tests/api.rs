use statusphere::api::status_util::{is_admin, ADMIN_DID};
use statusphere::api::webhooks::{
    create_webhook, delete_webhook, is_private_host, judge_url, list_deliveries, list_webhooks,
    rotate_secret, update_webhook, validate_events, validate_url, ApiError, CreateWebhookRequest,
    UpdateWebhookRequest, UrlHost, UrlParts, ValidationError, DELIVERY_PAGE_SIZE,
};
use statusphere::config::Config;
use statusphere::db::webhooks::{insert_webhook, owns_subscription, WebhookRegistry};
use statusphere::ledger::DeliveryLedger;

fn config(base: &str) -> Config {
    Config {
        admin_did: ADMIN_DID.to_string(),
        owner_handle: "zzstoatzz.io".into(),
        database_url: "sqlite://./statusphere.sqlite3".into(),
        oauth_redirect_base: base.into(),
        app_url: "https://status.example".into(),
        server_host: "127.0.0.1".into(),
        server_port: 8080,
        enable_firehose: false,
        log_level: "info".into(),
        dev_mode: false,
        emoji_dir: "static/emojis".into(),
    }
}

fn production() -> Config {
    config("https://auth.example")
}

fn development() -> Config {
    config("http://localhost:8080")
}

#[test]
fn production_is_anything_but_plain_localhost() {
    assert!(production().is_production());
    assert!(!development().is_production());
    assert!(!config("http://127.0.0.1:8080").is_production());
    assert!(!config("http://localhost").is_production());
    assert!(config("https://localhost:8080").is_production());
    assert!(config("http://localhos").is_production());
    assert!(config("").is_production());
}

#[test]
fn separate_auth_domain_compares_the_two_urls() {
    assert!(production().uses_separate_auth_domain());
    assert!(!config("https://status.example").uses_separate_auth_domain());
}

#[test]
fn admin_is_one_identifier() {
    assert!(is_admin("did:plc:xbtmt2zjwlrfegqvch7fboei"));
    assert!(!is_admin("did:plc:abc"));
    assert!(!is_admin(""));
    assert!(!is_admin("DID:PLC:XBTMT2ZJWLRFEGQVCH7FBOEI"));
}

#[test]
fn production_rejects_plain_http_localhost() {
    assert_eq!(
        validate_url("http://localhost/hook", &production()),
        Err(ValidationError::HttpsRequired)
    );
    assert_eq!(
        validate_url("https://localhost/hook", &production()),
        Err(ValidationError::PrivateHost)
    );
    assert_eq!(
        validate_url("https://LOCALHOST:8443/hook", &production()),
        Err(ValidationError::PrivateHost)
    );
}

#[test]
fn production_rejects_private_addresses() {
    for url in [
        "https://192.168.1.5/hook",
        "https://10.0.0.1/",
        "https://172.16.0.1/",
        "https://172.31.255.255/",
        "https://127.0.0.1/",
        "https://127.1/",
        "https://169.254.169.254/latest/meta-data",
        "https://224.0.0.1/",
        "https://239.255.255.255/",
        "https://0.0.0.0/",
        "https://0x7f.0.0.1/",
        "https://[::1]/hook",
        "https://[::]/hook",
        "https://[fc00::1]/hook",
        "https://[fd12:3456::1]/hook",
        "https://[fe80::1]/hook",
        "https://[ff02::1]/hook",
    ] {
        assert_eq!(validate_url(url, &production()), Err(ValidationError::PrivateHost), "{}", url);
    }
}

#[test]
fn production_accepts_public_https() {
    for url in [
        "https://example.com/hook",
        "https://8.8.8.8/hook",
        "https://172.15.0.1/",
        "https://172.32.0.1/",
        "https://192.167.1.1/",
        "https://169.253.1.1/",
        "https://223.255.255.255/",
        "https://240.0.0.1/",
        "https://0.0.0.1/",
        "https://[2001:db8::1]/hook",
        "https://[::2]/hook",
        "https://localhost.example.com/hook",
        "https://user:pw@example.com:8443/a?b=c#d",
    ] {
        assert_eq!(validate_url(url, &production()), Ok(()), "{}", url);
    }
}

#[test]
fn production_requires_https() {
    assert_eq!(
        validate_url("http://example.com/hook", &production()),
        Err(ValidationError::HttpsRequired)
    );
    assert_eq!(
        validate_url("ftp://example.com/hook", &production()),
        Err(ValidationError::HttpsRequired)
    );
}

#[test]
fn urls_must_parse_and_have_a_host() {
    for cfg in [production(), development()] {
        assert_eq!(validate_url("not a url", &cfg), Err(ValidationError::InvalidUrl));
        assert_eq!(validate_url("", &cfg), Err(ValidationError::InvalidUrl));
        assert_eq!(validate_url("/relative/path", &cfg), Err(ValidationError::InvalidUrl));
        assert_eq!(validate_url("https://", &cfg), Err(ValidationError::InvalidUrl));
        assert_eq!(
            validate_url("mailto:someone@example.com", &cfg),
            Err(ValidationError::MissingHost)
        );
        assert_eq!(validate_url("data:text/plain,hi", &cfg), Err(ValidationError::MissingHost));
    }
}

#[test]
fn development_accepts_local_targets() {
    assert_eq!(validate_url("http://localhost/hook", &development()), Ok(()));
    assert_eq!(validate_url("http://192.168.1.5/hook", &development()), Ok(()));
    assert_eq!(validate_url("https://[::1]/hook", &development()), Ok(()));
}

#[test]
fn reasons_are_stable_strings() {
    assert_eq!(ValidationError::InvalidUrl.reason(), "Invalid URL");
    assert_eq!(ValidationError::MissingHost.reason(), "Missing host");
    assert_eq!(ValidationError::HttpsRequired.reason(), "HTTPS required in production");
    assert_eq!(ValidationError::PrivateHost.reason(), "Private/local hosts not allowed");
    assert_eq!(ValidationError::UnsupportedEvent.reason(), "Unsupported event type");
}

#[test]
fn judging_goes_by_the_parsed_parts() {
    let parts = |scheme: &str, host: UrlHost| Some(UrlParts { scheme: scheme.into(), host });
    assert_eq!(judge_url(&None, false), Err(ValidationError::InvalidUrl));
    assert_eq!(judge_url(&parts("https", UrlHost::Missing), false), Err(ValidationError::MissingHost));
    assert_eq!(
        judge_url(&parts("http", UrlHost::Ipv4(127, 0, 0, 1)), true),
        Err(ValidationError::HttpsRequired)
    );
    assert_eq!(
        judge_url(&parts("https", UrlHost::Ipv4(127, 0, 0, 1)), true),
        Err(ValidationError::PrivateHost)
    );
    assert_eq!(judge_url(&parts("https", UrlHost::Ipv4(127, 0, 0, 1)), false), Ok(()));
    assert_eq!(judge_url(&parts("https", UrlHost::Domain("example.com".into())), true), Ok(()));
    assert!(is_private_host(&UrlHost::Domain("LocalHost".into())));
    assert!(!is_private_host(&UrlHost::Domain("localhost.".into())));
    assert!(is_private_host(&UrlHost::Ipv6(0xfebf, 0, 0, 0, 0, 0, 0, 1)));
    assert!(!is_private_host(&UrlHost::Ipv6(0xfec0, 0, 0, 0, 0, 0, 0, 1)));
    assert!(!is_private_host(&UrlHost::Ipv6(0, 0, 0, 0, 0, 0xffff, 0x7f00, 1)));
    assert!(!is_private_host(&UrlHost::Missing));
}

#[test]
fn event_filters_come_from_a_fixed_vocabulary() {
    for ok in [
        "*",
        " * ",
        "status.created",
        "status.deleted",
        "status.created,status.deleted",
        " status.created , status.deleted ",
    ] {
        assert_eq!(validate_events(ok), Ok(()), "{:?}", ok);
    }
    for bad in [
        "",
        "   ",
        "status.cleared",
        "status.created,status.cleared",
        "Status.Created",
        "status.created,",
        ",",
        "status.created,*",
        "**",
        "status.created;status.deleted",
    ] {
        assert_eq!(validate_events(bad), Err(ValidationError::UnsupportedEvent), "{:?}", bad);
    }
}

fn request(url: &str, secret: Option<&str>, events: Option<&str>) -> CreateWebhookRequest {
    CreateWebhookRequest {
        url: url.into(),
        secret: secret.map(|s| s.to_string()),
        events: events.map(|s| s.to_string()),
    }
}

#[test]
fn create_validates_before_it_stores() {
    let mut reg = WebhookRegistry::new();
    let cfg = production();
    let ok = request("https://example.com/hook", None, Some("status.created"));
    assert_eq!(
        create_webhook(&mut reg, &cfg, None, &ok).map(|r| r.0),
        Err(ApiError::NotAuthenticated)
    );
    assert_eq!(
        create_webhook(&mut reg, &cfg, Some("did:a"), &request("http://localhost/hook", None, None))
            .map(|r| r.0),
        Err(ApiError::Invalid(ValidationError::HttpsRequired))
    );
    assert_eq!(
        create_webhook(
            &mut reg,
            &cfg,
            Some("did:a"),
            &request("https://192.168.1.5/hook", None, None)
        )
        .map(|r| r.0),
        Err(ApiError::Invalid(ValidationError::PrivateHost))
    );
    assert_eq!(
        create_webhook(
            &mut reg,
            &cfg,
            Some("did:a"),
            &request("https://example.com/hook", None, Some("status.exploded"))
        )
        .map(|r| r.0),
        Err(ApiError::Invalid(ValidationError::UnsupportedEvent))
    );
    assert_eq!(reg.len(), 0);

    let (id, secret) = create_webhook(&mut reg, &cfg, Some("did:a"), &ok).unwrap();
    assert_eq!(id, 1);
    assert_eq!(secret.len(), 40);
    let row = reg.row(0).unwrap();
    assert_eq!(row.hook.did, "did:a");
    assert_eq!(row.hook.url, "https://example.com/hook");
    assert_eq!(row.hook.events, "status.created");
    assert_eq!(row.hook.secret, secret);

    let given = request("https://example.com/other", Some("my-own-secret"), None);
    let (id2, secret2) = create_webhook(&mut reg, &cfg, Some("did:a"), &given).unwrap();
    assert_eq!(id2, 2);
    assert_eq!(secret2, "my-own-secret");
    assert_eq!(reg.row(1).unwrap().hook.events, "*");
}

#[test]
fn listed_secrets_are_masked() {
    let mut reg = WebhookRegistry::new();
    let cfg = production();
    let (_, secret) = create_webhook(
        &mut reg,
        &cfg,
        Some("did:a"),
        &request("https://example.com/1", None, None),
    )
    .unwrap();
    create_webhook(&mut reg, &cfg, Some("did:a"), &request("https://example.com/2", Some("abc"), None))
        .unwrap();
    create_webhook(&mut reg, &cfg, Some("did:b"), &request("https://example.com/3", None, None))
        .unwrap();

    assert_eq!(list_webhooks(&reg, None).map(|l| l.len()), Err(ApiError::NotAuthenticated));
    let list = list_webhooks(&reg, Some("did:a")).unwrap();
    assert_eq!(list.len(), 2);
    assert_eq!(list[0].id, 2);
    assert_eq!(list[0].url, "https://example.com/2");
    assert_eq!(list[0].secret_masked, "****");
    assert_eq!(list[1].id, 1);
    assert_eq!(list[1].secret_masked, format!("****{}", &secret[36..]));
    assert_eq!(list[1].events, "*");
    assert!(list[1].active);
    for item in &list {
        assert!(item.secret_masked.len() <= 8);
        assert!(!format!("{:?}", item).contains(&secret));
    }
}

#[test]
fn update_revalidates_supplied_fields() {
    let mut reg = WebhookRegistry::new();
    let cfg = production();
    let (id, _) = create_webhook(
        &mut reg,
        &cfg,
        Some("did:a"),
        &request("https://example.com/1", None, None),
    )
    .unwrap();
    let patch = |url: Option<&str>, events: Option<&str>, active: Option<bool>| {
        UpdateWebhookRequest {
            url: url.map(|s| s.to_string()),
            events: events.map(|s| s.to_string()),
            active,
        }
    };
    assert_eq!(
        update_webhook(&mut reg, &cfg, None, id, &patch(None, None, Some(false))),
        Err(ApiError::NotAuthenticated)
    );
    assert_eq!(
        update_webhook(&mut reg, &cfg, Some("did:a"), id, &patch(Some("https://10.1.2.3/"), None, None)),
        Err(ApiError::Invalid(ValidationError::PrivateHost))
    );
    assert_eq!(
        update_webhook(&mut reg, &cfg, Some("did:a"), id, &patch(None, Some("nope"), None)),
        Err(ApiError::Invalid(ValidationError::UnsupportedEvent))
    );
    assert_eq!(
        update_webhook(&mut reg, &cfg, Some("did:b"), id, &patch(None, None, Some(false))),
        Err(ApiError::NotFound)
    );
    assert_eq!(
        update_webhook(&mut reg, &cfg, Some("did:b"), 77, &patch(None, None, Some(false))),
        Err(ApiError::NotFound)
    );
    let row = reg.row(0).unwrap();
    assert_eq!(row.hook.url, "https://example.com/1");
    assert!(row.hook.active);

    assert_eq!(
        update_webhook(
            &mut reg,
            &cfg,
            Some("did:a"),
            id,
            &patch(Some("https://example.org/2"), Some("status.deleted"), Some(false))
        ),
        Ok(())
    );
    let row = reg.row(0).unwrap();
    assert_eq!(row.hook.url, "https://example.org/2");
    assert_eq!(row.hook.events, "status.deleted");
    assert!(!row.hook.active);
    assert_eq!(update_webhook(&mut reg, &cfg, Some("did:a"), id, &patch(None, None, None)), Ok(()));
    assert_eq!(reg.row(0).unwrap().hook.url, "https://example.org/2");
}

#[test]
fn rotate_and_delete_are_owner_scoped() {
    let mut reg = WebhookRegistry::new();
    let cfg = production();
    let (id, secret) = create_webhook(
        &mut reg,
        &cfg,
        Some("did:a"),
        &request("https://example.com/1", None, None),
    )
    .unwrap();
    assert_eq!(rotate_secret(&mut reg, None, id), Err(ApiError::NotAuthenticated));
    assert_eq!(rotate_secret(&mut reg, Some("did:b"), id), Err(ApiError::NotFound));
    assert_eq!(rotate_secret(&mut reg, Some("did:b"), 5), Err(ApiError::NotFound));
    assert_eq!(reg.row(0).unwrap().hook.secret, secret);
    let fresh = rotate_secret(&mut reg, Some("did:a"), id).unwrap();
    assert_ne!(fresh, secret);
    assert_eq!(reg.row(0).unwrap().hook.secret, fresh);

    assert_eq!(delete_webhook(&mut reg, None, id), Err(ApiError::NotAuthenticated));
    assert_eq!(delete_webhook(&mut reg, Some("did:b"), id), Ok(()));
    assert_eq!(reg.len(), 1);
    assert_eq!(delete_webhook(&mut reg, Some("did:a"), id), Ok(()));
    assert_eq!(reg.len(), 0);
    assert_eq!(delete_webhook(&mut reg, Some("did:a"), id), Ok(()));
}

#[test]
fn deliveries_are_listed_to_the_owner_alone() {
    let mut reg = WebhookRegistry::new();
    let mine = insert_webhook(&mut reg, "did:a", "https://a.example", "s", "*", 1).unwrap();
    let theirs = insert_webhook(&mut reg, "did:b", "https://b.example", "s", "*", 1).unwrap();
    let mut ledger = DeliveryLedger::new();
    for i in 0..25 {
        ledger.record_attempt(mine, "e", "status.created", "{}", i);
        ledger.record_attempt(theirs, "e", "status.created", "{}", i);
    }
    assert!(owns_subscription(&reg, "did:a", mine));
    assert!(!owns_subscription(&reg, "did:a", theirs));
    assert!(!owns_subscription(&reg, "did:a", 99));

    let page = list_deliveries(&reg, &ledger, Some("did:a"), mine).unwrap();
    assert_eq!(DELIVERY_PAGE_SIZE, 20);
    assert_eq!(page.len(), 20);
    assert_eq!(page[0].attempted_at, 24);
    assert_eq!(page[19].attempted_at, 5);
    assert!(page.iter().all(|a| a.subscription_id == mine));

    let of = |did: Option<&str>, id: i64| list_deliveries(&reg, &ledger, did, id).map(|p| p.len());
    assert_eq!(of(None, mine), Err(ApiError::NotAuthenticated));
    assert_eq!(of(Some("did:a"), theirs), Err(ApiError::NotFound));
    assert_eq!(of(Some("did:a"), 99), Err(ApiError::NotFound));
    assert_eq!(of(Some("did:b"), theirs), Ok(20));
}

#[test]
fn refusals_have_codes_and_wording() {
    assert_eq!(ApiError::NotAuthenticated.status_code(), 401);
    assert_eq!(ApiError::Invalid(ValidationError::InvalidUrl).status_code(), 400);
    assert_eq!(ApiError::NotFound.status_code(), 404);
    assert_eq!(ApiError::Full.status_code(), 500);
    assert_eq!(ApiError::NotAuthenticated.message(), "Not authenticated");
    assert_eq!(
        ApiError::Invalid(ValidationError::PrivateHost).message(),
        "Private/local hosts not allowed"
    );
    assert_eq!(ApiError::NotFound.message(), "Not found");
    assert_eq!(ApiError::Full.message(), "No identifier left");
}

#[test]
fn the_database_path_drops_the_scheme() {
    let mut c = production();
    assert_eq!(c.database_path(), "./statusphere.sqlite3");
    c.database_url = "/data/status.db".into();
    assert_eq!(c.database_path(), "/data/status.db");
    c.database_url = "sqlite://".into();
    assert_eq!(c.database_path(), "");
    c.database_url = ":memory:".into();
    assert_eq!(c.database_path(), ":memory:");
}

use statusphere::db::webhooks::{
    create_webhook, delete_webhook, generate_secret, get_user_webhooks, insert_webhook,
    replace_secret, rotate_webhook_secret, update_webhook, update_webhook_at, RegistryError,
    Subscription, Webhook, WebhookRegistry,
};

fn hook_with_secret(secret: &str) -> Webhook {
    Webhook {
        id: 1,
        did: "did:plc:abc".to_string(),
        url: "https://example.com/hook".to_string(),
        secret: secret.to_string(),
        events: "*".to_string(),
        active: true,
        created_at: 0,
        updated_at: 0,
    }
}

#[test]
fn masked_secret_shows_last_four() {
    assert_eq!(hook_with_secret("abcdefghij").masked_secret(), "****ghij");
    assert_eq!(hook_with_secret("abcde").masked_secret(), "****bcde");
}

#[test]
fn masked_secret_hides_short_secrets() {
    assert_eq!(hook_with_secret("").masked_secret(), "****");
    assert_eq!(hook_with_secret("abcd").masked_secret(), "****");
    assert_eq!(hook_with_secret("a").masked_secret(), "****");
}

#[test]
fn masked_secret_counts_characters() {
    assert_eq!(hook_with_secret("ééé").masked_secret(), "****");
    assert_eq!(hook_with_secret("a€€€€").masked_secret(), "****€€€€");
}

#[test]
fn masked_secret_never_shows_more_than_four() {
    let secret = generate_secret();
    let masked = hook_with_secret(&secret).masked_secret();
    assert_eq!(masked.len(), 8);
    assert!(masked.starts_with("****"));
    assert!(secret.ends_with(&masked[4..]));
}

#[test]
fn generated_secret_is_forty_alphanumerics() {
    let s = generate_secret();
    assert_eq!(s.chars().count(), 40);
    assert!(s.chars().all(|c| c.is_ascii_alphanumeric()));
    assert_ne!(s, generate_secret());
}

#[test]
fn create_assigns_growing_ids_and_returns_the_secret() {
    let mut reg = WebhookRegistry::new();
    let (id1, s1) = create_webhook(&mut reg, "did:a", "https://a.example/h", Some("given"), None)
        .unwrap();
    let (id2, s2) =
        create_webhook(&mut reg, "did:a", "https://b.example/h", None, Some("status.created"))
            .unwrap();
    assert_eq!(id1, 1);
    assert_eq!(id2, 2);
    assert_eq!(s1, "given");
    assert_eq!(s2.len(), 40);
    assert_eq!(reg.len(), 2);
    let first = reg.row(0).unwrap();
    assert_eq!(first.hook.events, "*");
    assert!(first.hook.active);
    assert_eq!(first.hook.created_at, first.hook.updated_at);
    assert_eq!(first.last_delivery_at, None);
    assert_eq!(reg.row(1).unwrap().hook.secret, s2);
    assert!(reg.row(2).is_none());
}

#[test]
fn insert_stores_what_it_is_given() {
    let mut reg = WebhookRegistry::new();
    let id = insert_webhook(&mut reg, "did:a", "https://a.example/h", "sec", "status.deleted", 77)
        .unwrap();
    let row = reg.row(0).unwrap();
    assert_eq!(row.hook.id, id);
    assert_eq!(row.hook.did, "did:a");
    assert_eq!(row.hook.url, "https://a.example/h");
    assert_eq!(row.hook.secret, "sec");
    assert_eq!(row.hook.events, "status.deleted");
    assert_eq!(row.hook.created_at, 77);
    assert_eq!(row.hook.updated_at, 77);
}

#[test]
fn user_webhooks_are_owner_scoped_and_newest_first() {
    let mut reg = WebhookRegistry::new();
    insert_webhook(&mut reg, "did:a", "https://1", "s", "*", 1).unwrap();
    insert_webhook(&mut reg, "did:b", "https://2", "s", "*", 2).unwrap();
    insert_webhook(&mut reg, "did:a", "https://3", "s", "*", 3).unwrap();
    let mine: Vec<i64> = get_user_webhooks(&reg, "did:a").iter().map(|h| h.id).collect();
    assert_eq!(mine, vec![3, 1]);
    let theirs: Vec<i64> = get_user_webhooks(&reg, "did:b").iter().map(|h| h.id).collect();
    assert_eq!(theirs, vec![2]);
    assert!(get_user_webhooks(&reg, "did:c").is_empty());
}

#[test]
fn update_applies_only_supplied_fields() {
    let mut reg = WebhookRegistry::new();
    let id = insert_webhook(&mut reg, "did:a", "https://1", "s", "*", 1).unwrap();
    update_webhook_at(&mut reg, "did:a", id, None, Some("status.created"), None, 9).unwrap();
    let row = reg.row(0).unwrap();
    assert_eq!(row.hook.url, "https://1");
    assert_eq!(row.hook.events, "status.created");
    assert!(row.hook.active);
    assert_eq!(row.hook.created_at, 1);
    assert_eq!(row.hook.updated_at, 9);
    update_webhook_at(&mut reg, "did:a", id, Some("https://2"), None, Some(false), 10).unwrap();
    let row = reg.row(0).unwrap();
    assert_eq!(row.hook.url, "https://2");
    assert_eq!(row.hook.events, "status.created");
    assert!(!row.hook.active);
    assert_eq!(row.hook.secret, "s");
}

#[test]
fn update_by_a_stranger_looks_like_not_found() {
    let mut reg = WebhookRegistry::new();
    let id = insert_webhook(&mut reg, "did:a", "https://1", "s", "*", 1).unwrap();
    let foreign = update_webhook(&mut reg, "did:b", id, Some("https://evil"), None, None);
    let missing = update_webhook(&mut reg, "did:b", 999, Some("https://evil"), None, None);
    assert_eq!(foreign, Err(RegistryError::NotFound));
    assert_eq!(foreign, missing);
    assert_eq!(reg.row(0).unwrap().hook.url, "https://1");
    assert_eq!(reg.row(0).unwrap().hook.updated_at, 1);
}

#[test]
fn update_by_the_owner_succeeds() {
    let mut reg = WebhookRegistry::new();
    let id = insert_webhook(&mut reg, "did:a", "https://1", "s", "*", 1).unwrap();
    assert_eq!(update_webhook(&mut reg, "did:a", id, None, None, Some(false)), Ok(()));
    assert!(!reg.row(0).unwrap().hook.active);
}

#[test]
fn rotation_replaces_the_secret() {
    let mut reg = WebhookRegistry::new();
    let id = insert_webhook(&mut reg, "did:a", "https://1", "old-secret", "*", 1).unwrap();
    let fresh = rotate_webhook_secret(&mut reg, "did:a", id).unwrap();
    assert_eq!(fresh.len(), 40);
    assert_ne!(fresh, "old-secret");
    assert_eq!(reg.row(0).unwrap().hook.secret, fresh);
    replace_secret(&mut reg, "did:a", id, "chosen", 5).unwrap();
    assert_eq!(reg.row(0).unwrap().hook.secret, "chosen");
    assert_eq!(reg.row(0).unwrap().hook.updated_at, 5);
}

#[test]
fn rotation_by_a_stranger_looks_like_not_found() {
    let mut reg = WebhookRegistry::new();
    let id = insert_webhook(&mut reg, "did:a", "https://1", "old-secret", "*", 1).unwrap();
    assert_eq!(rotate_webhook_secret(&mut reg, "did:b", id), Err(RegistryError::NotFound));
    assert_eq!(rotate_webhook_secret(&mut reg, "did:b", 42), Err(RegistryError::NotFound));
    assert_eq!(reg.row(0).unwrap().hook.secret, "old-secret");
}

#[test]
fn delete_is_owner_scoped_and_idempotent() {
    let mut reg = WebhookRegistry::new();
    let a = insert_webhook(&mut reg, "did:a", "https://1", "s", "*", 1).unwrap();
    let b = insert_webhook(&mut reg, "did:b", "https://2", "s", "*", 1).unwrap();
    assert!(!delete_webhook(&mut reg, "did:b", a));
    assert_eq!(reg.len(), 2);
    assert!(delete_webhook(&mut reg, "did:a", a));
    assert_eq!(reg.len(), 1);
    assert!(!delete_webhook(&mut reg, "did:a", a));
    assert_eq!(reg.len(), 1);
    assert_eq!(reg.row(0).unwrap().hook.id, b);
}

#[test]
fn ids_are_not_reused_after_delete() {
    let mut reg = WebhookRegistry::new();
    let a = insert_webhook(&mut reg, "did:a", "https://1", "s", "*", 1).unwrap();
    assert!(delete_webhook(&mut reg, "did:a", a));
    let b = insert_webhook(&mut reg, "did:a", "https://1", "s", "*", 1).unwrap();
    assert_eq!(b, a + 1);
}

fn row(id: i64) -> Subscription {
    let mut hook = hook_with_secret("s");
    hook.id = id;
    Subscription { hook, last_delivery_at: None }
}

#[test]
fn load_accepts_growing_positive_ids() {
    let mut reg = WebhookRegistry::load(vec![row(2), row(5)]).unwrap();
    assert_eq!(reg.len(), 2);
    assert_eq!(insert_webhook(&mut reg, "did:a", "https://1", "s", "*", 1), Ok(6));
    let mut empty = WebhookRegistry::load(Vec::new()).unwrap();
    assert_eq!(insert_webhook(&mut empty, "did:a", "https://1", "s", "*", 1), Ok(1));
}

#[test]
fn load_refuses_ids_out_of_order() {
    assert!(WebhookRegistry::load(vec![row(5), row(2)]).is_none());
    assert!(WebhookRegistry::load(vec![row(3), row(3)]).is_none());
    assert!(WebhookRegistry::load(vec![row(0)]).is_none());
    assert!(WebhookRegistry::load(vec![row(-1)]).is_none());
    assert!(WebhookRegistry::load(vec![row(i64::MAX)]).is_none());
}

#[test]
fn a_full_registry_refuses_new_subscriptions() {
    let mut reg = WebhookRegistry::load(vec![row(i64::MAX - 1)]).unwrap();
    assert_eq!(
        insert_webhook(&mut reg, "did:a", "https://1", "s", "*", 1),
        Err(RegistryError::Full)
    );
    assert_eq!(
        create_webhook(&mut reg, "did:a", "https://1", None, None).map(|r| r.0),
        Err(RegistryError::Full)
    );
    assert_eq!(reg.len(), 1);
}

#[test]
fn mark_delivery_sets_the_marker_of_one_subscription() {
    let mut reg = WebhookRegistry::new();
    let a = insert_webhook(&mut reg, "did:a", "https://1", "s", "*", 1).unwrap();
    let _b = insert_webhook(&mut reg, "did:a", "https://2", "s", "*", 1).unwrap();
    reg.mark_delivery(a, 123);
    reg.mark_delivery(999, 5);
    assert_eq!(reg.row(0).unwrap().last_delivery_at, Some(123));
    assert_eq!(reg.row(1).unwrap().last_delivery_at, None);
}

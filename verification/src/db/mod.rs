//! The local store: status records, webhook subscriptions and their registry.

pub mod models;
pub mod webhooks;

pub use models::{StatusFromDb, StatusStore};
pub use webhooks::{
    create_webhook, delete_webhook, generate_secret, get_user_webhooks, rotate_webhook_secret,
    update_webhook, Webhook, WebhookRegistry,
};

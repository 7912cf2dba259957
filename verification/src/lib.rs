//! Change-data pipeline of a status-sharing service: idempotent ingestion of
//! record mutations into a local view, and signed webhook notification of
//! subscribers with per-subscription isolation and delivery auditing.

pub mod api;
pub mod config;
pub mod db;
pub mod error_handler;
pub mod ingester;
pub mod ledger;
pub mod rate_limiter;
pub mod text;
pub mod time;
pub mod webhooks;

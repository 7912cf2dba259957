//! The management surface: what each request is answered with.

pub mod status_util;
pub mod webhooks;

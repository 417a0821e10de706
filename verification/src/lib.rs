//! Policy evaluation engine for guarding traffic to and from a language-model
//! API: content is judged against configurable policies (keyword filters,
//! response-quality checks), and an interception pipeline decides whether a
//! request is forwarded, annotated, or blocked.

pub mod auth;
pub mod codec;
pub mod error;
pub mod guard;
pub mod keyword_filter;
pub mod models;
pub mod performance;
pub mod policy_admin;
pub mod regex_cache;
pub mod registry;
pub mod stamps;
pub mod text;

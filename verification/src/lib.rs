//! Extraction of a Xero organisation's accounting data into immutable raw
//! objects: configuration, request planning, paging, retry and rate limits,
//! object layout, manifests, and the rules of the stateful service around them.

pub mod auth;
pub mod backfill;
pub mod bronze;
pub mod calendar;
pub mod client;
pub mod config;
pub mod encoding;
pub mod error;
pub mod fetch;
pub mod headers;
pub mod job;
pub mod json;
pub mod key;
pub mod listing;
pub mod login;
pub mod manifest;
pub mod meta;
pub mod mode;
pub mod paging;
pub mod pkce;
pub mod query;
pub mod rate_limit;
pub mod records;
pub mod report;
pub mod resolve;
pub mod retry;
pub mod run;
pub mod service;
pub mod sink;
pub mod sorted;
pub mod store;
pub mod text;
pub mod tokens;
pub mod types;

pub use config::{AppConfig, GcsConfig, SyncConfig, XeroCustomConnectionConfig};
pub use error::Error;
pub use types::{EntityType, TenantId};

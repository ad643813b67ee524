//! Codex accounts: their tokens and quota, the files that they are kept in, the login flow, the state
//! of the interactive program, and the report on session usage.
//!
//! `text`, `binary64`, `order`, `timestamp`, `percent`, `json` and `encoding` are the ground that the
//! other modules stand on.
pub mod text;
pub mod binary64;
pub mod order;
pub mod timestamp;
pub mod percent;
pub mod json;
pub mod encoding;
pub mod identity;
pub mod text_laws;
pub mod model;
pub mod claims;
pub mod storage;
pub mod store_laws;
pub mod codex_auth;
pub mod settings;
pub mod api;
pub mod oauth;
pub mod service_laws;
pub mod chart;
pub mod options;
pub mod sessions;
pub mod usage;
pub mod report_laws;
pub mod listing;
pub mod listing_laws;
pub mod app;
pub mod app_laws;
pub mod key_laws;
pub mod theme;
pub mod message_laws;
pub mod view;
pub mod view_laws;

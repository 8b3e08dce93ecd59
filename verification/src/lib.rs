//! Verified core of the Trend Scope backend: alert matching and delivery
//! decisions, report figures and exports, admin and radar rules, and the
//! texts the service answers with.
pub mod account;
pub mod admin;
pub mod alerts;
pub mod billing;
pub mod csv_format;
pub mod csv_out;
pub mod error;
pub mod metrics;
pub mod radar;
pub mod reports;
pub mod text;

//! Access control and telemetry snapshots for a small host-monitoring service.

pub mod address;
pub mod auth;
pub mod config;
pub mod models;
pub mod request;
pub mod system_info;
pub mod text;
pub mod token;
pub mod whitelist;

//! Verified core of the Genesis monitoring agent: configuration, text
//! handling, key files, NATS setup, database plans and message routing.

pub mod text;
pub mod json;
pub mod config;
pub mod store_plan;
pub mod database;
pub mod crypto;
pub mod master_key;
pub mod secret_store;
pub mod runtime;
pub mod nats_setup;
pub mod collector;
pub mod bridge;
pub mod tls;

//! The core of a local proxy that lets OpenAI and Anthropic clients talk to Microsoft 365
//! Copilot: tokens and settings, the translation of requests, the protocol of the chat hub, the
//! answers of the endpoints, and the decisions of the user interfaces around them.
//!
//! What a program finds out on disk, in its environment or over the network is handed in as plain
//! values, and what it is to do comes back as plain values. The library itself asks only for the
//! time of day and for new UUIDs, where a caller does not give them.
pub mod bootstrap;
pub mod browser_install;
pub mod browsers;
pub mod cdp;
pub mod config;
pub mod copilot;
pub mod doctor;
pub mod json;
pub mod keys;
pub mod logging;
pub mod models;
pub mod onboarding;
pub mod openapi;
pub mod platform;
pub mod routes;
pub mod runtime;
pub mod runtime_status;
pub mod session_store;
pub mod substrate_client;
pub mod text;
pub mod token_store;
pub mod translator;
pub mod tray;
pub mod tui;

pub use config::{AppConfig, ServeOverrides, Settings};
pub use copilot::FakeCopilotClient;

//! The platform-independent core of a chat adapter for coding agents.
//!
//! A user's message becomes a prompt (`router`), the agent's run is taken up event by event
//! and shown while it goes on (`stream`, `tools`), and its answer goes out in messages and
//! files (`directives`, `uploads`, `delivery`). Whatever touches a network, a clock or a
//! disk is left to the caller, who performs the actions that come out of here and hands
//! back what happened.
pub mod adapter;
pub mod channel;
pub mod config;
pub mod delivery;
pub mod delivery_laws;
pub mod directive_laws;
pub mod directives;
pub mod display_laws;
pub mod router;
pub mod router_laws;
pub mod stream;
pub mod stream_laws;
pub mod text;
pub mod text_laws;
pub mod tools;
pub mod upload_laws;
pub mod uploads;
pub mod view_laws;

//! A chat-bot core: an ordered-fallback command router with an authorization
//! gate, a change-detection polling engine that turns stateless service
//! snapshots into bounded, deduplicated notification streams, and a TTL-bound
//! selection cache for multi-step interactions.
//!
//! All decision logic lives here and is verified; network and chat-platform
//! plumbing stays outside and hands this library plain values.

pub mod cache;
pub mod claude;
pub mod config;
pub mod engine;
pub mod errors;
pub mod events;
pub mod health;
pub mod history;
pub mod notes;
pub mod plex;
pub mod qbit;
pub mod request;
pub mod resolver;
pub mod router;
pub mod snapshot;
pub mod text;
pub mod unraid;

//! The decision logic of the Athen desktop assistant.
//!
//! Everything the app decides from plain values lives here, with contracts:
//! provider catalog and provider settings, model routing and arc pinning,
//! Telegram commands and progress rendering, credential saves, calendar and
//! owner setup, and the state machines behind the background loops.
#![allow(unused_imports)]

pub mod attachments;
pub mod calendar_sources;
pub mod channel_settings;
pub mod credentials;
pub mod deep_research;
pub mod dispatch;
pub mod embeddings;
pub mod endpoint_docs;
pub mod github;
pub mod json;
pub mod models;
pub mod notifications;
pub mod onboarding;
pub mod owner_messages;
pub mod owner_turn;
pub mod probes;
pub mod provider_edits;
pub mod provider_settings;
pub mod providers;
pub mod router_plan;
pub mod routing;
pub mod schedule;
pub mod settings;
pub mod setup;
pub mod skills_render;
pub mod spawn_pidfile;
pub mod state;
pub mod telegram_progress;
pub mod text;
pub mod time;
pub mod wiring;

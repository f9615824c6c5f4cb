//! Several accounts for one coding assistant: which one is active, when to leave it for another, and
//! a local proxy that hands requests on in its name.
//!
//! The library decides; it neither reads files nor talks to a server. Where something has to be
//! done in between, a value takes a step from what has happened to what is to be done next: a
//! switch ([`switch`]), a quota query ([`quota`]), a request ([`relay`]), a WebSocket connection
//! ([`websocket`]), a round of a service in the background ([`scheduler`], [`quota_refresh`]).

pub mod account;
pub mod clock;
pub mod codex_config;
pub mod ide_control;
pub mod json;
pub mod lifecycle;
pub mod manage;
pub mod oauth_server;
pub mod proxy;
pub mod quota;
pub mod quota_refresh;
pub mod relay;
pub mod scheduler;
pub mod selection;
pub mod signals;
pub mod skills;
pub mod state;
pub mod switch;
pub mod sync;
pub mod text;
pub mod token_tracker;
pub mod usage;
pub mod websocket;

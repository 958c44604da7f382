//! Verified core of a notification-delivery bot.
//!
//! The library holds the logic of the service: routing of parsed
//! notifications to transport actions, per-user delivery gating, the
//! consumer-loop state machine over a persistent log, decoding and
//! resolution of interactive callback actions, and issuance of short-lived
//! unique authorization tokens.  All I/O (the chat transport, the backend
//! HTTP API, the log store) lives outside, in the surrounding binary, which
//! hands the library plain values and takes plain values back.

pub mod callback;
pub mod consumer;
pub mod dispatch;
pub mod menu;
pub mod notification;
pub mod strutil;
pub mod token;

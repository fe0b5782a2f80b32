//! Core of a serverless peer-to-peer end-to-end encrypted chat session.
//!
//! Two peers establish a direct data channel and exchange encrypted text.
//! This crate holds the session logic itself: the out-of-band handshake
//! envelope codec (JSON + gzip + base64 with a bounded decoder), the ICE
//! candidate store, the ephemeral key agreement with directional key
//! derivation, the sequence-numbered authenticated message channel with
//! replay protection and a short authentication string, the connection
//! lifecycle state machine, and the ICE server configuration surface.
//! Network transport, timers and the host user interface live outside;
//! they drive this crate through plain values and read back the events
//! it queues.

pub mod types;
pub mod hexfmt;
pub mod strutil;
pub mod crypto;
pub mod jsonfmt;
pub mod codec;
pub mod session;
pub mod lifecycle;
pub mod config;
pub mod candidates;
pub mod util;

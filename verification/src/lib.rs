//! An anonymous, end-to-end encrypted peer-to-peer chat library.
//!
//! Peers are identified by Tor v3 hidden-service identities. On top of a
//! Tor-mediated byte stream the library negotiates an ephemeral X25519 key
//! agreement, a mutual identity-binding handshake, and a padded,
//! authenticated-encryption record framing, and runs a per-connection state
//! machine plus an engine that routes chat events between connections.

use vstd::prelude::*;

pub mod cbor;
pub mod chat;
pub mod codec;
pub mod commands;
pub mod config;
pub mod connection;
pub mod crypto;
pub mod engine;
pub mod handshake;
pub mod identity;
pub mod logger;
pub mod onion_service;
pub mod records;
pub mod ui;

verus! {

/// Plaintext records are padded so that their length is a whole number of
/// blocks of this many bytes.
pub const BLOCKSIZE: usize = 64;

} // verus!

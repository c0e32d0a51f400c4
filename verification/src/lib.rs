//! Core of a relay hub for short-lived multi-party sessions.
//!
//! A client asks for a session and is given a fresh session name; peers that
//! join the session broadcast to, or request data from, one another. The hub
//! never interprets a payload: it carries JSON and binary attachments between
//! peers and merges the acknowledgements that arrive in time.
//!
//! Everything here is synchronous and free of I/O. The transport hands in
//! plain values (the outcomes of a fan-out in arrival order, the text of a
//! file) and carries out what the functions of this crate decide.
//!
//! - [`hub`] holds the open sessions and the registry of their names;
//!   [`session`] is one session and its members, [`state`] the registry.
//! - [`relay`] is the protocol: the life of a connection, the preflight,
//!   and the merging of acknowledgements.
//! - [`names`] draws session names; [`config`] and [`dotenv`] read the
//!   start-up configuration.
//! - [`packets`] are the messages and their wire forms, [`json`] the JSON
//!   values they are built from.
//!
//! Session names come from `random_string`, peer identifiers from `uuid`,
//! and JSON values are `serde_json`'s. What is taken on trust of these
//! crates is stated where they are called, in [`names`], [`session`] and
//! [`json`].

pub mod config;
pub mod data;
pub mod dotenv;
pub mod error;
pub mod hub;
pub mod json;
pub mod names;
pub mod packets;
pub mod relay;
pub mod session;
pub mod state;

//! The logic of an SSH client front end, verified with Verus.
//!
//! A typed reference `[user@]host[:port]` is resolved in a configuration of
//! defaults, scopes and servers ([`resolve`]), and the parameters of the
//! connection are built from every source in its order of precedence
//! ([`data`], [`connect`]). The identity of the server is checked against a
//! store of host keys that trusts a key on its first use ([`trust`]). The
//! authentication goes through the methods that the server offers
//! ([`auth`]), and the session relays bytes between the terminal and the
//! channel ([`relay`]). The configuration is changed and listed by
//! [`manage`] and [`layout`].
//!
//! Files, the terminal and the network stay outside: the caller reads and
//! writes, and hands plain values in.

pub mod auth;
pub mod config;
pub mod connect;
pub mod context;
pub mod data;
pub mod error;
pub mod layout;
pub mod manage;
pub mod output;
pub mod pattern;
pub mod relay;
pub mod resolve;
pub mod store;
pub mod text;
pub mod trust;

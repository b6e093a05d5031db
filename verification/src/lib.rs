//! The rules of a live vote between two options.
//!
//! Votes are taken in over HTTP, queued, counted in a store, and the tallies
//! are pushed to every viewer that holds a connection open. This library is
//! what those programs decide; it opens no socket, reads no clock and asks no
//! store. Its owner tells it what happened and carries out what it answers.
//!
//! - [`server`]: the registry of live connections and the fan-out to them.
//! - [`session`]: one connection's lifecycle and liveness.
//! - [`outbox`]: the bounded queue between the registry and one connection.
//! - [`poller`]: the periodic snapshot of the tallies.
//! - [`models`] and [`json`]: what goes over the wire, and how it is written.
//! - [`config`]: the reference timing and categories.
//! - [`vote`]: who may cast a vote and what is queued for it.
//! - [`viewer`] and [`voter`]: what the two pages keep and show.

pub mod config;
pub mod json;
pub mod models;
pub mod outbox;
pub mod poller;
pub mod server;
pub mod session;
pub mod viewer;
pub mod vote;
pub mod voter;

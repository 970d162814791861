//! Persistence and text utilities of the Yuyuko immersion tracker.
//!
//! The heart of the crate is [`api::firebase`]: the access layer for the remote
//! document store. It turns document values into the store's typed wire format
//! and back, builds the requests of point operations, structured queries and
//! transactions, and interprets the answers. Nothing here performs I/O: every
//! operation is split into a function that builds a request and a function
//! that reads the answer, so that a caller owns the transport.
pub mod api;
pub mod commands;
pub mod features;
pub mod models;
pub mod utils;

//! Peers on a local network that each keep a catalog of books, find one
//! another, and show each other the entries that their owners have shared.
//!
//! This crate holds the rules of that exchange: how the catalog changes,
//! what a line typed by the operator asks for, which requests a peer
//! answers and which answers it shows. Reading the catalog file, the
//! network and the terminal are left to the program that uses it.
//!
//! - [`catalog`]: the entries of one peer, adding and sharing them.
//! - [`protocol`]: requests, answers, and the rules for both.
//! - [`commands`]: the lines that the operator types.
//! - [`peers`]: the peers within reach.
//! - [`coordination`]: what a peer does about each event.
//! - [`text`]: prefixes, white space and separated fields.

pub mod catalog;
pub mod commands;
pub mod coordination;
pub mod peers;
pub mod protocol;
pub mod text;

//! Core of an e-commerce backend: credentials, bearer tokens, role guards,
//! the order workflow and the rules that keep customer records consistent.
//!
//! Everything here is plain computation over values handed in by the
//! caller; reading and writing the database, HTTP and mail stay outside.

pub mod error;
pub mod text;
pub mod money;
pub mod orders;
pub mod addresses;
pub mod payments;
pub mod claims;
pub mod auth;
pub mod guard;
pub mod credentials;
pub mod users;
pub mod catalog;
pub mod carts;

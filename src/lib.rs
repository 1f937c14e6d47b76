//! Wallet-based challenge-response authentication: keyed challenges, signed
//! session tokens, and the authorizer that sequences their checks.

mod clock;
pub mod auth;
pub mod claim;
pub mod conf;
pub mod error;
pub mod jwt;
pub mod keys;
pub mod mac;
pub mod param;
pub mod utils;

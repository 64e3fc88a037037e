//! Verified core of a portfolio custom-price updater.
//!
//! The library holds the logic of the tool: validating dates and prices,
//! resolving an investment code to its numeric id, building the HTTP
//! request bodies and URLs, and deciding the command flow. The binary
//! around it does the network I/O and hands this library plain values.

pub mod auth;
pub mod dates;
pub mod directory;
pub mod numbers;
pub mod pricing;
pub mod scrape;

//! Resolves the pins of `Package.resolved` lock files into local checkouts:
//! reading the lock files, merging their pins, and deciding, pin by pin, what
//! has to be cloned, fetched and redirected.

pub mod address;
pub mod checkout;
pub mod install;
pub mod json;
pub mod merge;
pub mod redirects;
pub mod repo;
pub mod resolved;
pub mod text;
pub mod views;

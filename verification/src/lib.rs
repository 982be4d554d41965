//! Session and credential lifecycle for a small fleet-management backend.
//!
//! The verified core covers password hashing and verification, issuance and
//! validation of signed access tokens, the single-use refresh-token ledger,
//! the per-account state machine (failed attempts, forced password change,
//! disabled flag), and the authorization gate that every protected request
//! passes through.  Calls into outside crates (argon2, jsonwebtoken, rand)
//! sit behind small trusted wrappers; everything around them is proved.

pub mod device;
pub mod gate;
pub mod ledger;
pub mod password;
pub mod random;
pub mod requests;
pub mod service;
pub mod store;
pub mod token;

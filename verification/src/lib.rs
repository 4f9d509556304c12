//! Trust broker for remote relay actuation.
//!
//! A registered device proves possession of a private key and of a shared
//! time-based secret before the relays associated with it may be operated.

pub mod ict_args;
pub mod ict_codec;
pub mod ict_config;
pub mod ict_crypto;
pub mod ict_db;
pub mod ict_errors;
pub mod ict_laws;
pub mod ict_operations;
pub mod ict_web;

//! A lease-based distributed lock over a shared key-value store, with fencing
//! tokens that reject operations from a holder whose lease has run out.

pub mod config;
pub mod host;
pub mod lock;
pub mod model;
pub mod store;
pub mod token;

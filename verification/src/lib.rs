//! Verified core of a magic-wormhole based file and text transfer tool:
//! peer filename sanitising, relay address parsing, the application
//! protocol and the session state machine, configuration rules and the
//! self-update decisions.

pub mod bridge;
pub mod config;
pub mod diag;
pub mod error;
pub mod laws;
pub mod guarantees;
pub mod protocol;
pub mod session;
pub mod storage;
pub mod text;
pub mod transfer;
pub mod updater;

//! A client for the Android Debug Bridge and the state of a terminal console
//! that manages devices through it.
//!
//! The client's operations are conversations ([`session::Session`]) that
//! name each outside step and decide on how it went; the console
//! ([`console::Console`]) answers keys, device updates and command results.
use vstd::prelude::*;

pub mod text;
pub mod frame;
pub mod device;
pub mod files;
pub mod error;
pub mod exchange;
pub mod session;
pub mod tracker;
pub mod host;
pub mod locate;
pub mod console;
pub mod laws;

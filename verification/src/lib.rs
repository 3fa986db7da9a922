//! Availability monitor core: snapshot model, response parsing, transition
//! detection, retry/backoff control, the polling state machine, and the
//! pure parts of the purchase and alert paths.
#![allow(unused_imports)]
#![verifier::loop_isolation(false)]

pub mod compare;
pub mod config;
pub mod cookie_file;
pub mod model;
pub mod parser;
pub mod purchase;
pub mod reaction;
pub mod retry;
pub mod scheduler;
pub mod simulate;
pub mod sound;
pub mod text;

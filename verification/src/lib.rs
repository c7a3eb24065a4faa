//! Real-time train-service announcements for the Rinkai line.
//!
//! The library holds the verified core of a small status reporter: it
//! selects announcement records whose railway identifier mentions the
//! target line, resolves the Japanese status text of each (with a fixed
//! fallback when none is published), and renders the report that is
//! written to standard output. Reading the credential, fetching the
//! JSON document and printing stay outside the library.

pub mod config;
pub mod matching;
pub mod present;
pub mod records;

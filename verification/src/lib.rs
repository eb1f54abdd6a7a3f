//! Verified core of a storage sanitization tool.
//!
//! The library decides, its caller acts. `session` starts a wipe where the
//! operator consents and the `guardrails` clear the target. `engine` then says
//! step by step what to do with the device, and gives out the certificate;
//! `inspect` does the same for the description of a device. `wipe` holds the
//! plan of every algorithm, `spot_check` the verification behind it. What
//! holds of whole runs is stated in `effects`, `runs` and `faithful`. Calls
//! into other crates stand in `outside`.

pub mod ata;
pub mod cli;
pub mod devices;
pub mod effects;
pub mod engine;
pub mod error;
pub mod faithful;
pub mod fingerprint;
pub mod guardrails;
pub mod inspect;
pub mod layout;
pub mod numerals;
pub mod nvme;
pub mod outside;
pub mod patterns;
pub mod runs;
pub mod session;
pub mod spot_check;
pub mod text;
pub mod types;
pub mod wipe;

//! Verified core of the TFM2 Editor: text and number handling, the Bridge
//! wire format, currency display, localization lookups and the global
//! history snapshot helpers.

pub mod text;
pub mod error;
pub mod hex;
pub mod currency;
pub mod localization;
pub mod digits;
pub mod decimal;
pub mod amount;
pub mod double;
pub mod wire;
pub mod commands;
pub mod players;
pub mod teams;
pub mod json;
pub mod history;
pub mod responses;
pub mod edits;
pub mod requests;
pub mod report;
pub mod tables;
pub mod framing;
pub mod overrides;

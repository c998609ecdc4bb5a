//! Core of a stateless score submission and retrieval service.
//!
//! One request carries a JSON body `{"name": string, "score": integer,
//! "level": integer}`. A valid submission with a non-empty name is recorded
//! as one fresh row in a durable table; every request, valid or degraded to a
//! pure read, is answered with the full current leaderboard, shaped from a
//! scan of that table. Rows whose attributes are missing or unparsable are
//! dropped from the answer, never allowed to fail the request.

pub mod digits;
pub mod json;
pub mod record;
pub mod rows;
pub mod service;
pub mod submission;

pub use record::ScoreEntry;

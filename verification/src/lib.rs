//! A scholarship matching library.
//!
//! The library scores a student profile against a scholarship record with a
//! deterministic, multi-factor weighted scoring function, and ranks a catalog
//! of scholarships for a user.  All scores are integers in ten-thousandths,
//! so a compatibility score lies between `0` and `10000` inclusive.
//!
//! Modules:
//! - [`types`]: the data model (profiles, scholarships, match results) and its views;
//! - [`text`]: case-insensitive substring matching used throughout the scoring rules;
//! - [`matching`]: the scoring engine and the recommendation and filter drivers;
//! - [`storage`]: an in-memory store for users, scholarships, matches and applications.

pub mod matching;
pub mod storage;
pub mod text;
pub mod types;

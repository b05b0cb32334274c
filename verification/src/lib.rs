//! Turns a free-text tone request into an assembled rig: structured answers
//! recovered from a completion service, candidate pools without duplicates,
//! deterministic selection rules, and idempotent acquisition plans.
//!
//! The library decides; its caller talks to the network and the disk. A run
//! goes through the modules in this order:
//!
//! - [`run`] and [`options`] bring the request into its ranges, and
//!   [`credentials`] finds the keys.
//! - [`prompts`] writes each question; [`completion`] says what to send and
//!   what a reply means; [`extract`] recovers the JSON object from the text
//!   of a reply.
//! - [`analysis`] turns the first answer into search terms, [`queries`]
//!   derives the terms of each search, and [`pool`] collects the results
//!   without duplicates.
//! - [`selection`] and [`choice`] select the amplifiers, [`cabinet`] and
//!   [`rig`] give each its cabinet, and [`models`], [`naming`] and
//!   [`download`] plan what is fetched and record what happened.
//!
//! [`json`], [`text`], [`decimal`], [`advice`], [`catalog`] and
//! [`heuristics`] hold what the others share. [`selection_proofs`] states
//! what holds of every selection.

pub mod advice;
pub mod analysis;
pub mod cabinet;
pub mod catalog;
pub mod choice;
pub mod completion;
pub mod credentials;
pub mod decimal;
pub mod download;
pub mod extract;
pub mod heuristics;
pub mod json;
pub mod models;
pub mod naming;
pub mod options;
pub mod pool;
pub mod prompts;
pub mod queries;
pub mod rig;
pub mod run;
pub mod selection;
pub mod selection_proofs;
pub mod text;

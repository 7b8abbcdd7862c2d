//! Validation of language-model output against domain guidelines, with a
//! deterministic hash attestation and a staged, event-sourced run model.
//!
//! * [`validation`] scores completions against guideline terms and fans a
//!   prompt out over the configured backends; [`guidelines`] reads
//!   guideline sets from JSON and [`providers`] selects backends from
//!   configuration.
//! * [`json`] holds JSON values with their canonical form and text,
//!   [`key_order`] the laws of that form, [`digest`] the hash, and
//!   [`attestation`] the proof computed from them.
//! * [`retry`] holds stages, backoff and the control state of a run,
//!   [`events`] the trail and the outcome it stands for, [`agents`] the
//!   run itself, [`results_text`] the test that a text spells the
//!   recorded results, and [`jobs`] the table of runs behind the job calls.
//! * [`domain`], [`clock`], [`text`], [`storage`] and [`runtime`] hold what
//!   the others share.

pub mod agents;
pub mod attestation;
pub mod clock;
pub mod digest;
pub mod domain;
pub mod events;
pub mod guidelines;
pub mod jobs;
pub mod json;
pub mod key_order;
pub mod providers;
pub mod results_text;
pub mod retry;
pub mod runtime;
pub mod storage;
pub mod text;
pub mod validation;

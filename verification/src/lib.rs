//! Selection-session and bounded-concurrency job-dispatch engine for a
//! media download service.
//!
//! A user submits free-text titles, receives ranked candidate choices
//! (tracks, albums, artists, podcasts), picks some by index, and the
//! corresponding audio is downloaded by background workers. This crate
//! holds the verified core: per-request selection state with single-use
//! sessions, expansion of hierarchical choices into flat unit lists via
//! paginated catalog traversal, fixed-size batching, and admission of
//! batches into a capacity-limited pool of jobs with retry and backoff.
//! Transport (HTTP routing, catalog clients, the job orchestrator) lives
//! outside this crate and hands it plain values.

pub mod batch;
pub mod catalog;
pub mod choice;
pub mod digits;
pub mod dispatch;
pub mod download;
pub mod expand;
pub mod gateway;
mod ids;
pub mod selection;
pub mod session;
pub mod titles;

pub use choice::{Choice, ChoiceKind, DownloadableUnit, UnitOrigin};

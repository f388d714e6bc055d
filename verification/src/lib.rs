//! Core of a small photo-gallery system: the client-side image ingestion
//! pipeline (decode, deterministic downscale and center-crop, re-encode,
//! sortable shard-path identifiers, all-or-nothing batch assembly), the
//! cancelable task-runner state machine, and the server's in-memory record
//! store. Network and file transport live outside this crate; the pipeline
//! here is a pure transform over byte buffers and plain values.

pub mod batch;
pub mod codec;
pub mod engine;
pub mod geometry;
pub mod ident;
pub mod loader;
pub mod selection;
pub mod store;

//! Fetch-transform-serialize pipeline for daily stock aggregates.
//!
//! The library holds the verified core of the pipeline: classifying a
//! provider response, mapping provider records to canonical rows, the
//! per-symbol batch fold with partial-failure handling, and CSV rendering.
//! HTTP transport, JSON decoding and configuration loading live outside the
//! library and hand it plain values.

pub mod batch;
pub mod csv;
pub mod date;
pub mod polygon;
pub mod record;
pub mod render;

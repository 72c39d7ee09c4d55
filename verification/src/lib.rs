//! Scans configuration text for container resource requests and limits.
//!
//! The library recognizes four fixed textual patterns — a `requests:` or
//! `limits:` section followed by a `cpu:` and a `memory:` field in either
//! order — extracts the raw value strings, normalizes them through a tolerant
//! numeric-prefix parser, and aggregates them into per-document and grand
//! totals that combine as a commutative monoid.

pub mod extract;
pub mod numeric;
pub mod text;
pub mod totals;

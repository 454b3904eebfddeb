//! Batch evaluation of candidate proxy endpoints.
//!
//! A raw candidate address is normalized into one or more fully qualified
//! proxy URIs (inferring missing ports and schemes), each URI is probed a
//! configured number of times, the outcomes are aggregated into a verdict,
//! and the verdict is rendered according to the output mode.

pub mod candidate;
pub mod geo;
pub mod report;
pub mod scheme;
pub mod strutil;
pub mod trial;

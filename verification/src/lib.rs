//! Email message model and security-signal extraction.
//!
//! A raw message is decomposed into a tree of MIME parts, and a fixed
//! sequence of analysis passes derives an ordered list of findings from it.

pub mod text;
pub mod headers;
pub mod folding;
pub mod outside;
pub mod mime;
pub mod signals;
pub mod report;
pub mod laws;

//! Dynamic-DNS reconciliation for a LiveDNS-style provider.
//!
//! The library holds the decision logic of a dynamic-DNS run: which
//! (record, address-family) pairs to look at, whether a pair needs a write,
//! how the provider's URLs and request bodies are formed, and how many
//! records were actually changed.  Network I/O and configuration live
//! outside, in the binary that drives the library.

pub mod family;
pub mod json;
pub mod laws;
pub mod reconcile;
pub mod wire;

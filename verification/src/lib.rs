//! Federation protocol engine for a content-publishing node.
//!
//! The crate verifies inbound signed deliveries, interprets and applies
//! activities exactly once, computes outbound broadcast recipient sets, and
//! plans background enrichment of newly discovered remote actors. Network
//! transport and page rendering live outside the library; the engine is a
//! set of verified functions over an explicit domain store.

pub mod actions;
pub mod broadcast;
pub mod crypto;
pub mod enrich;
pub mod errors;
pub mod inbox;
pub mod laws;
pub mod model;
pub mod render;
pub mod resolver;
pub mod sigheader;
pub mod signatures;
pub mod signing;
pub mod store;
pub mod uris;
pub mod web;


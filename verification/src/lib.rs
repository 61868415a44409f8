//! Aggregator for recurring 12-step recovery meeting listings.
//!
//! The library normalizes differently-shaped upstream listings into one
//! canonical `Meeting` schema, resolves missing coordinates through a
//! rate-limited geocoder with a persistent cache, keeps the result in an
//! embedded relational index with an atomic-swap import protocol, and
//! answers distance-constrained queries over that index.

pub mod model;
pub mod text;
pub mod times;
pub mod coords;
pub mod source;
pub mod json;
pub mod html;
pub mod logo_mapper;
pub mod meeting_service;
pub mod streets;
pub mod na_holland;
pub mod bmlt;
pub mod tsml;
pub mod sqlite;
pub mod index;
pub mod position_lookup;
pub mod server;
pub mod sync;

//! Synchronisation of a remote GeoJSON feature collection into a local
//! relational store, and its reconstitution as GeoJSON.

pub mod config;
pub mod error;
pub mod feature;
pub mod fetch;
pub mod json;
pub mod laws;
pub mod normalize;
pub mod order;
pub mod reader;
pub mod scheduler;
pub mod store;
pub mod sync;
pub mod validate;

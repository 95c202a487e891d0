//! A peer-to-peer chat node: each participant holds its own partial view of a
//! set of conversations, and instances exchange messages and membership
//! notifications directly.  The library keeps that view consistent,
//! deduplicated and ordered; the surrounding process supplies the transport
//! and the byte store.

pub mod files;
pub mod group;
pub mod ids;
pub mod laws;
pub mod order;
pub mod query;
pub mod store;
pub mod sync;
pub mod types;

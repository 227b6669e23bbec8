//! A small shared log-style store of diagnostic records ("dumps"), together
//! with the logic of its two access surfaces: the in-process command surface
//! (add / get all / clear / greet) and the handler of the HTTP write endpoint,
//! which decodes a JSON-encoded record and appends it to the store.

pub mod commands;
pub mod http;
pub mod json;
pub mod laws;
pub mod record;
pub mod store;

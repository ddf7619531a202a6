//! Data carried between the remote API and the engine.

pub mod api_defs;

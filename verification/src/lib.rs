//! Fetch, paginate and download engine for a tag-search media API.
//!
//! The library decides; its caller performs. Every network request, file
//! probe and transfer is handed out as an [`orchestrator::Action`], and what
//! came of it is handed back as an [`orchestrator::Event`].

pub mod channel_handler;
pub mod e_handler;
pub mod funcs;
pub mod orchestrator;
pub mod run_model;
pub mod text;
pub mod type_defs;

//! Requirement mappings and the planning logic of a workspace authoring
//! service: the mapping schema with its validation and verification summary,
//! the catalogue of authoring tools, and the translation of tool requests
//! into authoring operations.

pub mod mapping;
pub mod expected;
pub mod server;
pub mod config;

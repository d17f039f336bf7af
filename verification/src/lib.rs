//! Core model for consumer-driven contract testing: interaction data model,
//! JSON codec, matching-rule and generator engines, content-type resolution,
//! and stable identity keys.

pub mod strutil;
pub mod json;
pub mod bodies;
pub mod matchingrules;
pub mod generators;
pub mod errors;
pub mod message;
pub mod provider_states;
pub mod sync_message;
pub mod response;
pub mod paths;
pub mod outside;
pub mod matching;
pub mod generation;

//! Declarative repository governance: the verified core of multipush.

pub mod cli;
pub mod config;
pub mod engine;
pub mod error;
pub mod formatter;
pub mod formatters;
pub mod github;
pub mod json;
pub mod loader;
pub mod model;
pub mod policy_source;
pub mod recipe;
pub mod pattern;
pub mod rules;
pub mod rule;
pub mod text;

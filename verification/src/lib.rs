//! A batch runner for remote CI builds: resolves a job list against a layered
//! configuration, drives each job through a trigger/locate/poll pipeline, and
//! renders a fixed-height status block, one line per job in input order.

pub mod config;
pub mod orchestrate;
pub mod outcome;
pub mod poll;
pub mod render;
pub mod resolve;
pub mod text;

pub use outcome::ConfigError;

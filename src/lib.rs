//! Word lookup core: reconciles a local indexed dictionary with an optional
//! remote dictionary service, merges partial entries and ranks approximate
//! matches by edit distance.

pub mod cli;
pub mod display;
pub mod online;
pub mod pattern;
pub mod ranking;
pub mod service;
pub mod setup;
pub mod suggest;
pub mod types;

//! Verified core of a terminal tool that browses and cleans the conversation
//! records that Cursor keeps on the local disk.

pub mod text;
pub mod domain;
pub mod platform;
pub mod json;
pub mod store;
pub mod error;
pub mod config;
pub mod app;
pub mod preflight;
pub mod planning;
pub mod workspace;
pub mod preview;
pub mod catalog;
pub mod execution;
pub mod cli;
pub mod tools;

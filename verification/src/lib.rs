//! `zd`: reading and writing Zendesk ticket replies, both public replies and
//! internal notes. This crate holds the tool's verified logic; the command
//! line, HTTP and file access live around it.
pub mod idref;
pub mod models;
pub mod text;
pub mod client;
pub mod error;
pub mod credential;
pub mod keychain;
pub mod config;
pub mod output;
pub mod platform;
pub mod cli;

//! A chat bot that rewrites earlier messages with `sed`-style substitution
//! commands and answers `/help`.

pub mod app;
pub mod channel;
pub mod command;
pub mod config;
pub mod describe;
pub mod domain;
pub mod flags;
pub mod handler;
pub mod help;
pub mod matcher;
pub mod replace;
pub mod request;
pub mod substitute;
mod text;

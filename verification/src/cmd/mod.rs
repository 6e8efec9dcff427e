//! What each subcommand computes before anything is sent.

pub mod text;
pub mod draw;
pub mod template;
pub mod asset;

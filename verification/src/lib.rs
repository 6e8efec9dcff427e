//! The verified core of `busy`, a command-line tool that draws on a BUSY Bar.

pub mod strings;
pub mod error;
pub mod model;
pub mod values;
pub mod anim;
pub mod validate;
pub mod sanitize;
pub mod color;
pub mod cli;
pub mod config;
pub mod overrides;
pub mod cmd;
pub mod template;
pub mod input;
pub mod output;
pub mod image;

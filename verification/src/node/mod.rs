//! Node configuration and its command-line form.
pub mod cli;
pub mod config;

//! The verified core of glim, a terminal UI for GitLab CI/CD pipelines:
//! the project store, key handling, widget state, notices, request URLs,
//! error messages, screen layout and effect timing.
pub mod modulo;
pub mod text;
pub mod ids;
pub mod error;
pub mod domain;
pub mod config;
pub mod event;
pub mod notice;
pub mod config_popup;
pub mod input;
pub mod text_input;
pub mod widgets;
pub mod store;
pub mod app;
pub mod cli;
pub mod client;
pub mod layout;
pub mod logging;
pub mod shader;

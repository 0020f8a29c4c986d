//! OmnySSH core library: configuration parsing, probe and service-output
//! analysis, the SSH key-setup state machine and display helpers, each with
//! a machine-checked contract.

pub mod config;
pub mod event;
pub mod float_text;
pub mod outside;
pub mod ssh;
pub mod text;
pub mod ui;
pub mod utils;

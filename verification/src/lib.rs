//! Works After Reinstall: capture a Windows machine's applications, preferences,
//! environment and configuration files into a bundle, and rebuild a fresh machine
//! from it. This crate holds what the program decides; the program around it does
//! the disk, registry, process and terminal work.
pub mod text;
pub mod order;
pub mod clock;
pub mod cli;
pub mod manifest;
pub mod catalog;
pub mod starter;
pub mod paths;
pub mod files;
pub mod utf16;
pub mod vars;
pub mod envvars;
pub mod settings;
pub mod winget;
pub mod commands;
pub mod discovery;
pub mod prompt;
pub mod tui;
pub mod view;

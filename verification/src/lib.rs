//! Core of Prism: a desktop client that keeps a local cache of GitHub Projects V2
//! boards and an operation log of pending status moves, synchronised with GitHub
//! under the "stop on conflict" (C2) rule.
//!
//! Everything that decides or computes lives here and is verified; the desktop
//! shell, the HTTP client and the SQLite mirror live outside this crate.
pub mod text;
pub mod dtos;
pub mod errors;
pub mod codes;
pub mod table;
pub mod clock;
pub mod store;
pub mod bootstrap;
pub mod append;
pub mod sync;
pub mod json;
pub mod mapper;
pub mod github;
pub mod settings;
pub mod ports;
pub mod laws;
pub mod reading_laws;

//! Core of a lightweight container runtime: manifests, repositories,
//! container lifecycle, mount planning and the console protocol rules.

pub mod api;
pub mod console;
pub mod container;
pub mod error;
pub mod event;
pub mod event_loop;
pub mod init;
pub mod listener;
pub mod manifest;
pub mod path;
pub mod repository;
pub mod state;
pub mod stream;
pub mod text;
pub mod throttle;
pub mod version;

//! Verified core of gprox, a text-only gateway between OpenAI-style clients and
//! a local Codex app-server.
pub mod api;
pub mod backend;
pub mod config;
pub mod failure;
pub mod json;
pub mod names;
pub mod process;
pub mod reply;
pub mod request;
pub mod service;
pub mod stream;
pub mod text;
pub mod update;
pub mod value;

//! Get My File.
pub mod assets;
pub mod chunk;
pub mod client;
pub mod cloudflare;
pub mod common;
pub mod number;
pub mod outside;
pub mod path;
pub mod r2;
pub mod remote;
pub mod shell;
pub mod text;

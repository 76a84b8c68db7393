//! The worker that runs at Cloudflare: installing it over the API.
pub mod cf;
pub mod config;
pub mod json;
pub mod worker;

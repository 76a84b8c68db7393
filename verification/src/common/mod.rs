//! What both sides of a transfer share.
pub mod bitmap;
pub mod events;
pub mod interface;
pub mod r2;
pub mod utils;

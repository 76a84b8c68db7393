//! The program that fetches a file.
pub mod args;
pub mod bar;
pub mod client;
pub mod comm;
pub mod communicator;
pub mod config;
pub mod file;
pub mod gmf_file;
pub mod progress_bar;
pub mod r2;
pub mod remote;
pub mod remote_new;
pub mod ssh;
pub mod ui;

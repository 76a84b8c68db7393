//! The program on the remote host: it reads the file, encrypts its chunks and uploads
//! them.
pub mod handler;
pub mod logging;
pub mod metadata;
pub mod msg;
pub mod r2;
pub mod server;
pub mod state;
pub mod worker;

//! Splitting and fetching a file with the programs of the remote host: `ssh`, `scp`,
//! `split`, `openssl` and `s5cmd`.
pub mod local;
pub mod remote;
pub mod s5cmd;
pub mod ssh;

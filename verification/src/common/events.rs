//! What the remote side reports while it works on a file, and what it is asked over
//! HTTP.
use crate::chunk::sha256_hex;
use vstd::prelude::*;

verus! {

/// One report on a running task.
#[derive(Debug)]
pub enum TaskEvent {
    ProcessingStart,
    ChunkReadyForDownload { chunk_id: u64, passphrase_b64: String },
    ChunkAcknowledged { chunk_id: u64 },
    TaskCompleted,
    Error { message: String },
}

/// A request to look at a file.
#[derive(Debug)]
pub struct SetupRequestPayload {
    pub path: String,
    pub chunk_size: u64,
    pub concurrency: u64,
}

/// What was found out about the file.
#[derive(Debug)]
pub struct SetupResponse {
    pub filename: String,
    pub size: u64,
    pub sha256: String,
    pub total_chunks: u64,
}

/// A request to process the file from some chunk on.
#[derive(Debug, Clone, Copy, PartialEq, Eq, Structural)]
pub struct StartRequestPayload {
    pub resume_from_chunk_id: u64,
}

/// The SHA-256 of a file's content in lower case hexadecimal.
pub fn calc_sha256(content: &[u8]) -> (r: String)
    ensures
        r@ == crate::outside::encoding::hex_text(crate::outside::digest::sha256(content@)),
{
    sha256_hex(content)
}

}

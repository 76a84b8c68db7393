//! A file whose encrypted chunks were fetched into local files.
use crate::chunk::{decrypt_chunk as open_chunk, OpenError};
use vstd::prelude::*;

verus! {

/// Bytes of the file in a full chunk: ten mebibytes.
pub const CHUNK_SIZE: usize = 10_485_760;

/// One chunk of a file in the manifest.
#[derive(Debug)]
pub struct ChunkInfo {
    /// Number of the chunk, counted from one.
    pub id: u32,
    /// The file that holds the encrypted chunk.
    pub local_path: String,
    /// The chunk's random key, in Base64.
    pub passphrase_b64: String,
    /// SHA-256 of the encrypted chunk, in hexadecimal.
    pub sha256: String,
    /// Bytes of the encrypted chunk.
    pub size: u64,
}

/// The list of all chunks of a file.
#[derive(Debug)]
pub struct Manifest {
    pub filename: String,
    pub total_size: u64,
    pub chunk_size: usize,
    pub total_chunks: u32,
    pub chunks: Vec<ChunkInfo>,
}

/// One report on a running task.
#[derive(Debug)]
pub enum TaskEvent {
    ProcessingStart,
    ChunkReadyForDownload { chunk_id: u32, passphrase_b64: String },
    ChunkAcknowledged { chunk_id: u32 },
    TaskCompleted,
    Error { message: String },
}

/// Opens a stored chunk under a key.
pub fn decrypt_chunk(key: &[u8; 32], data: &[u8]) -> (r: Result<Vec<u8>, OpenError>)
    ensures
        crate::chunk::is_outcome(r, crate::chunk::opened_chunk(key@, data@)),
        data@.len() < 28 ==> r is Err,
        r matches Ok(plain) ==> data@.len() == plain@.len() + 28,
{
    open_chunk(key.as_slice(), data)
}

/// The entry with its file by name.
pub open spec fn as_entry(info: ChunkInfo) -> crate::chunk::ChunkInfo {
    crate::chunk::ChunkInfo {
        id: info.id,
        filename: info.local_path,
        passphrase_b64: info.passphrase_b64,
        sha256: info.sha256,
        size: info.size,
    }
}

/// All entries with their files by name.
pub open spec fn as_entries(chunks: Seq<ChunkInfo>) -> Seq<crate::chunk::ChunkInfo> {
    chunks.map_values(|c: ChunkInfo| as_entry(c))
}

/// Opens the stored chunks of a file in the order of their numbers and puts them
/// together. `stored` holds, for each entry in that order, what its file holds, or
/// nothing when the file is not there.
pub fn decrypt_and_merge(manifest: &Manifest, stored: &Vec<Option<Vec<u8>>>) -> (r: Result<
    Vec<u8>,
    OpenError,
>)
    requires
        stored@.len() == manifest.chunks@.len(),
    ensures
        crate::chunk::is_outcome(
            r,
            crate::chunk::merged(
                crate::chunk::in_order(as_entries(manifest.chunks@)),
                crate::chunk::stored_views(stored@),
            ),
        ),
{
    let mut chunks: Vec<crate::chunk::ChunkInfo> = Vec::new();
    for i in 0..manifest.chunks.len()
        invariant
            chunks@ == as_entries(manifest.chunks@.take(i as int)),
    {
        let c = &manifest.chunks[i];
        chunks.push(
            crate::chunk::ChunkInfo {
                id: c.id,
                filename: c.local_path.clone(),
                passphrase_b64: c.passphrase_b64.clone(),
                sha256: c.sha256.clone(),
                size: c.size,
            },
        );
        assert(as_entries(manifest.chunks@.take(i + 1)) =~= as_entries(
            manifest.chunks@.take(i as int),
        ).push(as_entry(manifest.chunks@[i as int])));
    }
    assert(manifest.chunks@.take(manifest.chunks@.len() as int) == manifest.chunks@);
    let whole = crate::chunk::ManifestFile {
        filename: manifest.filename.clone(),
        total_size: manifest.total_size,
        chunk_size: manifest.chunk_size,
        total_chunks: manifest.total_chunks,
        chunks,
    };
    crate::chunk::decrypt_and_merge(&whole, stored)
}

/// An entry stays what it is when it is read as one with its file by name: it has the same
/// number, file, passphrase, digest and size, so it opens the same chunk, and all entries
/// stay in their order.
pub proof fn law_entries_stay_what_they_are(chunks: Seq<ChunkInfo>, i: int, data: Seq<u8>)
    requires
        0 <= i < chunks.len(),
    ensures
        as_entries(chunks).len() == chunks.len(),
        as_entries(chunks)[i].id == chunks[i].id,
        as_entries(chunks)[i].filename@ == chunks[i].local_path@,
        crate::chunk::opened_as(as_entries(chunks)[i], data) == crate::chunk::checked_and_opened(
            chunks[i].id,
            chunks[i].size,
            chunks[i].sha256@,
            chunks[i].passphrase_b64@,
            data,
        ),
        CHUNK_SIZE == 10 * 1024 * 1024,
{
}

}

//! What the program on the remote host knows about the file it sends.
use crate::common::bitmap::ChunkBitmap;
use vstd::prelude::*;

verus! {

/// What does not change once the file was looked at.
pub struct TaskMetadata {
    file_path: String,
    file_size: u64,
    chunk_size: u64,
    total_chunks: u64,
}

impl TaskMetadata {
    pub closed spec fn path_text(self) -> Seq<char> {
        self.file_path@
    }

    pub closed spec fn size(self) -> u64 {
        self.file_size
    }

    pub closed spec fn chunk(self) -> u64 {
        self.chunk_size
    }

    pub closed spec fn total(self) -> u64 {
        self.total_chunks
    }

    pub fn new(file_path: String, file_size: u64, chunk_size: u64, total_chunks: u64) -> (r:
        TaskMetadata)
        ensures
            r.path_text() == file_path@,
            r.size() == file_size,
            r.chunk() == chunk_size,
            r.total() == total_chunks,
    {
        TaskMetadata { file_path, file_size, chunk_size, total_chunks }
    }

    /// Where the file is.
    pub fn file_path(&self) -> (r: &String)
        ensures
            r@ == self.path_text(),
    {
        &self.file_path
    }

    /// Bytes of the file.
    pub fn file_size(&self) -> (r: u64)
        ensures
            r == self.size(),
    {
        self.file_size
    }

    /// Bytes of a full chunk.
    pub fn chunk_size(&self) -> (r: u64)
        ensures
            r == self.chunk(),
    {
        self.chunk_size
    }

    /// How many chunks the file takes.
    pub fn total_chunks(&self) -> (r: u64)
        ensures
            r == self.total(),
    {
        self.total_chunks
    }
}

/// What the program remembers: set once each, never changed after.
pub struct Memory {
    pub metadata: Option<TaskMetadata>,
    pub chunk_bitmap: Option<ChunkBitmap>,
}

impl Memory {
    /// Nothing remembered yet.
    pub fn new() -> (r: Memory)
        ensures
            r.metadata is None,
            r.chunk_bitmap is None,
    {
        Memory { metadata: None, chunk_bitmap: None }
    }
}

/// Remembers what is known about the file. It can be set only once.
pub fn init_metadata(memory: &mut Memory, metadata: TaskMetadata)
    requires
        old(memory).metadata is None,
    ensures
        final(memory).metadata == Some(metadata),
        final(memory).chunk_bitmap == old(memory).chunk_bitmap,
{
    memory.metadata = Some(metadata);
}

/// What is known about the file. It must have been set.
pub fn global_metadata(memory: &Memory) -> (r: &TaskMetadata)
    requires
        memory.metadata is Some,
    ensures
        *r == memory.metadata->0,
{
    memory.metadata.as_ref().unwrap()
}

/// Remembers which chunks are done. It can be set only once.
pub fn init_chunk_bitmap(memory: &mut Memory, chunk_bitmap: ChunkBitmap)
    requires
        old(memory).chunk_bitmap is None,
    ensures
        final(memory).chunk_bitmap == Some(chunk_bitmap),
        final(memory).metadata == old(memory).metadata,
{
    memory.chunk_bitmap = Some(chunk_bitmap);
}

/// Which chunks are done. It must have been set.
pub fn global_chunk_bitmap(memory: &Memory) -> (r: &ChunkBitmap)
    requires
        memory.chunk_bitmap is Some,
    ensures
        *r == memory.chunk_bitmap->0,
{
    memory.chunk_bitmap.as_ref().unwrap()
}

}

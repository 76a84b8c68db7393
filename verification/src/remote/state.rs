//! What a running task of the HTTP service holds.
use std::collections::HashMap;
use vstd::prelude::*;

verus! {

/// How the work on a chunk ended.
#[derive(Debug)]
pub enum ChunkProcessingStatus {
    Completed,
    Failed { reason: String },
}

/// The end of the work on one chunk.
#[derive(Debug)]
pub struct ChunkState {
    pub id: u32,
    pub status: ChunkProcessingStatus,
}

/// What does not change once a task was set up.
#[derive(Debug)]
pub struct TaskMetadata {
    pub source_path: String,
    pub source_filename: String,
    pub source_size: u64,
    pub chunk_size: u64,
    pub total_chunks: u64,
    pub concurrency: u64,
}

/// Everything about the task.
pub struct TaskContext {
    pub metadata: Option<TaskMetadata>,
    pub chunks: HashMap<u32, ChunkState>,
    /// Whether someone listens to the reports of the task.
    pub running: bool,
}

impl TaskContext {
    /// No task yet.
    pub fn new() -> (r: TaskContext)
        ensures
            r.metadata is None,
            r.chunks@ == Map::<u32, ChunkState>::empty(),
            !r.running,
    {
        TaskContext { metadata: None, chunks: HashMap::new(), running: false }
    }
}

/// The service's state.
pub struct AppState(pub TaskContext);

impl AppState {
    /// A service without a task.
    pub fn new() -> (r: AppState)
        ensures
            r.0.metadata is None,
            r.0.chunks@ == Map::<u32, ChunkState>::empty(),
            !r.0.running,
    {
        AppState(TaskContext::new())
    }
}

}

//! What the client is told on the command line.
use vstd::prelude::*;

verus! {

/// Bytes of the file in a chunk: ten mebibytes.
pub const CHUNK_SIZE: u64 = 10_485_760;

/// The whole command line.
#[derive(Debug)]
pub struct Cli {
    pub command: Command,
}

/// What to do.
#[derive(Debug)]
pub enum Command {
    /// Write the configuration.
    Login,
    /// Fetch a file.
    Get { path: String, verbose: bool },
}

/// Which file to fetch, and how.
#[derive(Debug)]
pub struct GetArgs {
    pub path: String,
    pub chunk_size: u64,
    pub verbose: bool,
}

impl Command {
    /// Which file to fetch, if any.
    pub fn get_args(self) -> (r: Option<GetArgs>)
        ensures
            match self {
                Command::Get { path, verbose } => r == Some(
                    GetArgs { path, chunk_size: CHUNK_SIZE, verbose },
                ),
                Command::Login => r is None,
            },
    {
        match self {
            Command::Get { path, verbose } => Some(
                GetArgs { path, chunk_size: CHUNK_SIZE, verbose },
            ),
            Command::Login => None,
        }
    }
}

/// A file is fetched in chunks of ten mebibytes.
pub proof fn law_chunks_are_ten_mebibytes()
    ensures
        CHUNK_SIZE == 10 * 1024 * 1024,
        CHUNK_SIZE == crate::client::gmf_file::CHUNK_SIZE,
{
}

}

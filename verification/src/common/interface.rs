//! The messages between the client and the program on the remote host.
use crate::common::bitmap::ChunkBitmap;
use vstd::prelude::*;

verus! {

/// One message, in either direction.
pub enum Message {
    Request(ClientRequest),
    Response(ServerResponse),
}

/// What the client asks for.
pub enum ClientRequest {
    /// Look at a file and say how many chunks it takes.
    Setup { path: String, chunk_size: u64 },
    /// Upload the chunks that are not done yet.
    Start { chunk_bitmap: ChunkBitmap },
}

/// What the remote side found out about a file.
#[derive(Debug)]
pub struct SetupResponse {
    pub file_name: String,
    pub file_size: u64,
    pub total_chunks: u64,
    pub xxh3: String,
}

/// How much the remote side is going to send.
#[derive(Debug, Clone, Copy, PartialEq, Eq, Structural)]
pub struct StartResponse {
    pub remaining_size: u64,
}

/// What the part of the client that downloads has to know.
#[derive(Debug)]
pub enum DownloadEvent {
    ChunkReady { chunk_id: u64, passphrase_b64: String },
    UploadCompleted,
}

/// What the remote side answers.
#[derive(Debug)]
pub enum ServerResponse {
    Heartbeat,
    SetupSuccess(SetupResponse),
    StartSuccess(StartResponse),
    ChunkReadyForDownload { chunk_id: u64, passphrase_b64: String },
    UploadCompleted,
    Error(String),
}

impl From<ServerResponse> for Message {
    fn from(response: ServerResponse) -> (r: Message) {
        Message::Response(response)
    }
}

impl vstd::std_specs::convert::FromSpecImpl<ServerResponse> for Message {
    open spec fn obeys_from_spec() -> bool {
        true
    }

    open spec fn from_spec(response: ServerResponse) -> Message {
        Message::Response(response)
    }
}

impl From<ClientRequest> for Message {
    fn from(request: ClientRequest) -> (r: Message) {
        Message::Request(request)
    }
}

impl vstd::std_specs::convert::FromSpecImpl<ClientRequest> for Message {
    open spec fn obeys_from_spec() -> bool {
        true
    }

    open spec fn from_spec(request: ClientRequest) -> Message {
        Message::Request(request)
    }
}

/// `r` is an error with the words `text`.
pub open spec fn is_error(r: ServerResponse, text: Seq<char>) -> bool {
    r matches ServerResponse::Error(m) && m@ == text
}

/// What was said is told apart: an error is one with its words, and no other answer is an
/// error.
pub proof fn law_error_is_its_words(r: ServerResponse, a: Seq<char>, b: Seq<char>)
    requires
        is_error(r, a),
    ensures
        is_error(r, b) ==> a == b,
        r is Error,
        r->Error_0@ == a,
{
}

/// A message holds what it was made of, and says which side it comes from.
pub proof fn law_message_holds_its_content(request: ClientRequest, response: ServerResponse)
    ensures
        <Message as vstd::std_specs::convert::FromSpec<ServerResponse>>::from_spec(response)
            == Message::Response(response),
        <Message as vstd::std_specs::convert::FromSpec<ClientRequest>>::from_spec(request)
            == Message::Request(request),
{
}

}

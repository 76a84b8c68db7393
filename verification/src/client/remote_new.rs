//! A remote program that is talked to in plain text: one line in, everything up to a
//! mark out.
use crate::client::bar::Bar;
use crate::client::comm::ChannelEvent;
use crate::number::decimal_of;
use crate::outside::utf8::{text_lossy, text_strict};
use crate::text::{cat2, cat3, cat4, cat5, contains, same, trim};
use vstd::prelude::*;
use vstd::utf8::*;

verus! {

/// The state of three bars.
#[derive(Debug, Clone, Copy, PartialEq, Eq, Structural)]
pub struct AllProgressBar {
    pub upload: Bar,
    pub download: Bar,
    pub writer: Bar,
}

impl AllProgressBar {
    /// All bars behind the chunks that are done.
    pub fn new(total_chunks: u64, completed_chunks: u64) -> (r: AllProgressBar)
        ensures
            r.upload == (Bar { len: total_chunks, position: completed_chunks, ended: false }),
            r.download == r.upload,
            r.writer == r.upload,
    {
        let bar = Bar::new(total_chunks, completed_chunks);
        AllProgressBar { upload: bar, download: bar, writer: bar }
    }

    pub fn update_upload(&mut self)
        ensures
            *final(self) == (AllProgressBar { upload: old(self).upload.stepped(), ..*old(self) }),
    {
        self.upload.step();
    }

    pub fn update_download(&mut self)
        ensures
            *final(self) == (AllProgressBar {
                download: old(self).download.stepped(),
                ..*old(self)
            }),
    {
        self.download.step();
    }

    pub fn update_writer(&mut self)
        ensures
            *final(self) == (AllProgressBar { writer: old(self).writer.stepped(), ..*old(self) }),
    {
        self.writer.step();
    }
}

/// Where the remote program is installed.
pub const REMOTE_BIN_DIR: &'static str = "$HOME/.local/bin";

/// The remote program.
pub const REMOTE_PATH: &'static str = "$HOME/.local/bin/gmf-remote";

/// The script that shows the SHA-256 of the remote program, or nothing.
pub fn check_sha_script() -> (r: String)
    ensures
        r@ == "\n        if [ -f \""@ + REMOTE_PATH@ + "\" ]; then\n            sha256sum \""@
            + REMOTE_PATH@
            + "\" | cut -d' ' -f1\n        else\n            echo \"\"\n        fi\n    "@,
{
    cat5(
        "\n        if [ -f \"",
        REMOTE_PATH,
        "\" ]; then\n            sha256sum \"",
        REMOTE_PATH,
        "\" | cut -d' ' -f1\n        else\n            echo \"\"\n        fi\n    ",
    )
}

/// Whether the remote program must be installed: unless the script ended with code zero
/// and showed the SHA-256 of the one that is wanted.
pub fn check_remote(exit_code: Option<u32>, output: &str, wanted_sha256: &str) -> (r: bool)
    ensures
        !r <==> (exit_code == Some(0u32) && crate::text::trimmed(output@) == wanted_sha256@),
{
    match exit_code {
        Some(code) => if code == 0 {
            !same(trim(output).as_str(), wanted_sha256)
        } else {
            true
        },
        None => true,
    }
}

/// The command that makes the directory for the remote program.
pub fn make_dir_command() -> (r: String)
    ensures
        r@ == "mkdir -p "@ + REMOTE_BIN_DIR@,
{
    cat2("mkdir -p ", REMOTE_BIN_DIR)
}

/// The command that starts the remote program.
pub fn start_command(endpoint: &str, access_key_id: &str, secret_access_key: &str) -> (r: String)
    ensures
        r@ == "ENDPOINT='"@ + endpoint@ + "' ACCESS_KEY_ID='"@ + access_key_id@
            + "' SECRET_ACCESS_KEY='"@ + secret_access_key@ + "' "@ + REMOTE_PATH@,
{
    let mut out = cat5(
        "ENDPOINT='",
        endpoint,
        "' ACCESS_KEY_ID='",
        access_key_id,
        "' SECRET_ACCESS_KEY='",
    );
    out.append(secret_access_key);
    out.append("' ");
    out.append(REMOTE_PATH);
    out
}

/// The words for a remote program that ended at once.
pub fn start_failed(code: u32, output: &str) -> (r: String)
    ensures
        r@ == "尝试以交互模式启动 gmf-remote 失败，程序立即退出。退出码: "@
            + crate::number::decimal(code as nat) + ", 输出: "@ + output@,
{
    cat4(
        "尝试以交互模式启动 gmf-remote 失败，程序立即退出。退出码: ",
        decimal_of(code as u64).as_str(),
        ", 输出: ",
        output,
    )
}

/// Why no answer came.
#[derive(Debug)]
pub enum ReceiveError {
    /// The remote program has ended.
    Exited(u32),
    /// The channel is closed.
    Closed,
    /// The answer is not text, in the words of who tried to read it.
    NotUtf8(String),
}

impl ReceiveError {
    /// The error in words.
    pub open spec fn message(self) -> Seq<char> {
        match self {
            ReceiveError::Exited(code) => "远程程序意外退出，退出码: "@ + crate::number::decimal(
                code as nat,
            ),
            ReceiveError::Closed => "通道在预期响应完成前被关闭"@,
            ReceiveError::NotUtf8(words) => words@,
        }
    }

    /// Puts the error in words.
    pub fn text(&self) -> (r: String)
        ensures
            r@ == self.message(),
    {
        match self {
            ReceiveError::Exited(code) => cat2(
                "远程程序意外退出，退出码: ",
                decimal_of(*code as u64).as_str(),
            ),
            ReceiveError::Closed => "通道在预期响应完成前被关闭".to_owned(),
            ReceiveError::NotUtf8(words) => words.clone(),
        }
    }
}

/// What an event means for an answer that is being received.
#[derive(Debug)]
pub enum Received {
    /// The answer is not complete.
    More,
    /// The answer is complete.
    Answer(String),
    Failed(ReceiveError),
}

/// `r` is what an event means: bytes that complete the answer end it. A complete answer
/// is one in which the mark can be read.
pub open spec fn is_received(
    r: Received,
    before: Seq<u8>,
    event: ChannelEvent,
    marker: Seq<char>,
) -> bool {
    match event {
        ChannelEvent::Data(data) => {
            let all = before + data@;
            if !crate::text::occurs(crate::outside::utf8::readable(all), marker) {
                r is More
            } else if valid_utf8(all) {
                r matches Received::Answer(text) && text@ == decode_utf8(all)
            } else {
                r matches Received::Failed(ReceiveError::NotUtf8(_))
            }
        },
        ChannelEvent::ExitStatus(code) => r == Received::Failed(ReceiveError::Exited(code)),
        ChannelEvent::Closed => r == Received::Failed(ReceiveError::Closed),
        ChannelEvent::Other => r is More,
    }
}

/// A remote program that is being talked to, and what it has said of the answer so far.
#[derive(Debug)]
pub struct InteractiveSession {
    pub buffer: Vec<u8>,
}

impl InteractiveSession {
    /// Nothing said yet.
    pub fn start() -> (r: InteractiveSession)
        ensures
            r.buffer@.len() == 0,
    {
        InteractiveSession { buffer: Vec::new() }
    }

    /// What is sent for a command: a line.
    pub fn send_command(&self, command: &str) -> (r: String)
        ensures
            r@ == command@ + "\n"@,
    {
        cat2(command, "\n")
    }

    /// Takes an event while an answer is being received. Nothing of an answer that has
    /// ended goes into the next one.
    pub fn receive_response(&mut self, event: ChannelEvent, marker: &str) -> (r: Received)
        ensures
            is_received(r, old(self).buffer@, event, marker@),
            final(self).buffer@ == match event {
                ChannelEvent::Data(data) => if r is More {
                    old(self).buffer@ + data@
                } else {
                    Seq::empty()
                },
                ChannelEvent::Other => old(self).buffer@,
                _ => Seq::empty(),
            },
    {
        match event {
            ChannelEvent::Data(data) => {
                self.buffer.extend_from_slice(data.as_slice());
                assert(self.buffer@ =~= old(self).buffer@ + data@);
                let text = text_lossy(self.buffer.as_slice());
                if !contains(text.as_str(), marker) {
                    return Received::More;
                }
                let answer = text_strict(self.buffer.as_slice());
                self.buffer = Vec::new();
                match answer {
                    Ok(text) => Received::Answer(text),
                    Err(words) => Received::Failed(ReceiveError::NotUtf8(words)),
                }
            },
            ChannelEvent::ExitStatus(code) => {
                self.buffer = Vec::new();
                Received::Failed(ReceiveError::Exited(code))
            },
            ChannelEvent::Closed => {
                self.buffer = Vec::new();
                Received::Failed(ReceiveError::Closed)
            },
            ChannelEvent::Other => Received::More,
        }
    }

    /// Gives an answer up that did not come in time; `limit` is that time for people. The
    /// words for it come back.
    pub fn timed_out(&mut self, limit: &str) -> (r: String)
        ensures
            final(self).buffer@.len() == 0,
            r@ == "等待响应超时 (超过 "@ + limit@ + ")"@,
    {
        self.buffer = Vec::new();
        cat3("等待响应超时 (超过 ", limit, ")")
    }

    /// Whether the remote program has ended, so that the connection can be closed.
    pub fn shutdown(&self, event: &ChannelEvent) -> (r: bool)
        ensures
            r == (event is ExitStatus || event is Closed),
    {
        match event {
            ChannelEvent::ExitStatus(_) => true,
            ChannelEvent::Closed => true,
            _ => false,
        }
    }
}

/// An answer is complete as soon as its mark can be read, and not before; it is then all
/// that was said, whatever pieces it came in.
pub proof fn law_answer_ends_at_its_mark(
    r: Received,
    before: Seq<u8>,
    data: Vec<u8>,
    marker: Seq<char>,
    text: Seq<char>,
)
    requires
        is_received(r, before, ChannelEvent::Data(data), marker),
        before + data@ == encode_utf8(text),
    ensures
        crate::text::occurs(text, marker) <==> r is Answer,
        !crate::text::occurs(text, marker) <==> r is More,
        r matches Received::Answer(answer) ==> answer@ == text,
{
    encode_utf8_valid_utf8(text);
    encode_utf8_decode_utf8(text);
}

/// A remote program that has ended, or a channel that is closed, gives no answer, whatever
/// was said before; anything else that comes in changes nothing.
pub proof fn law_no_answer_behind_the_end(
    r: Received,
    before: Seq<u8>,
    event: ChannelEvent,
    marker: Seq<char>,
)
    requires
        is_received(r, before, event, marker),
    ensures
        event matches ChannelEvent::ExitStatus(code) ==> r == Received::Failed(
            ReceiveError::Exited(code),
        ),
        event is Closed ==> r == Received::Failed(ReceiveError::Closed),
        event is Other ==> r is More,
        r is Answer ==> event is Data,
{
}

/// The words about an answer that did not come end with the code of a program that ended,
/// and are those of who tried to read it where it is no text.
pub proof fn law_missing_answer_is_told(code: u32, words: String)
    ensures
        crate::text::closes_with(
            ReceiveError::Exited(code).message(),
            crate::number::decimal(code as nat),
        ),
        ReceiveError::NotUtf8(words).message() == words@,
{
    crate::text::law_closes_with_its_end(
        "远程程序意外退出，退出码: "@,
        crate::number::decimal(code as nat),
    );
}

/// The remote program is run from where it is installed, whoever talks to it.
pub proof fn law_remote_program_is_where_it_is_put()
    ensures
        REMOTE_PATH@ == REMOTE_BIN_DIR@ + "/gmf-remote"@,
        crate::client::client::REMOTE_PATH@ == crate::client::client::REMOTE_BIN_DIR@
            + "/gmf-remote"@,
        crate::client::client::REMOTE_PATH@ == REMOTE_PATH@,
        REMOTE_BIN_DIR@ == "$HOME"@ + "/.local/bin"@,
{
    reveal_strlit("$HOME/.local/bin");
    reveal_strlit("$HOME/.local/bin/gmf-remote");
    reveal_strlit("/gmf-remote");
    reveal_strlit("$HOME");
    reveal_strlit("/.local/bin");
    assert(REMOTE_PATH@ =~= REMOTE_BIN_DIR@ + "/gmf-remote"@);
    assert(REMOTE_BIN_DIR@ =~= "$HOME"@ + "/.local/bin"@);
}

}

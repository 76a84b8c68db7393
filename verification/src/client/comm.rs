//! Messages as lines of text on a stream of bytes.
use crate::common::interface::{Message, ServerResponse};
use crate::outside::utf8::text_lossy;
use crate::text::{cat2, trim};
use vstd::prelude::*;
use vstd::slice::*;
use vstd::utf8::*;

verus! {

/// The byte that ends a line.
pub const NEWLINE: u8 = 10;

/// What is sent for a message in JSON: a line.
pub fn request_line(json: &str) -> (r: String)
    ensures
        r@ == json@.push('\n'),
{
    let r = cat2(json, "\n");
    proof {
        reveal_strlit("\n");
        assert(r@ =~= json@.push('\n'));
    }
    r
}

/// How many bytes stand before the first newline; all of them when there is none.
pub open spec fn line_len(bytes: Seq<u8>) -> int
    decreases bytes.len(),
{
    if bytes.len() == 0 || bytes[0] == NEWLINE {
        0
    } else {
        1 + line_len(bytes.drop_first())
    }
}

/// The text of a line.
pub open spec fn line_text(line: Seq<u8>) -> Seq<char> {
    crate::text::trimmed(crate::outside::utf8::readable(line))
}

/// The texts of the complete lines in `bytes`, without those that hold none.
pub open spec fn texts(bytes: Seq<u8>) -> Seq<Seq<char>>
    decreases bytes.len(),
{
    let n = line_len(bytes);
    if n < 0 || n >= bytes.len() {
        Seq::empty()
    } else {
        let text = line_text(bytes.take(n + 1));
        let rest = texts(bytes.skip(n + 1));
        if text.len() == 0 {
            rest
        } else {
            seq![text] + rest
        }
    }
}

/// What stands behind the last complete line in `bytes`.
pub open spec fn remainder(bytes: Seq<u8>) -> Seq<u8>
    decreases bytes.len(),
{
    let n = line_len(bytes);
    if n < 0 || n >= bytes.len() {
        bytes
    } else {
        remainder(bytes.skip(n + 1))
    }
}

fn find_newline(bytes: &Vec<u8>) -> (r: usize)
    ensures
        r == line_len(bytes@),
        r <= bytes@.len(),
{
    let mut i: usize = 0;
    assert(bytes@.skip(0) == bytes@);
    while i < bytes.len() && bytes[i] != NEWLINE
        invariant
            i <= bytes@.len(),
            line_len(bytes@) == i + line_len(bytes@.skip(i as int)),
        decreases bytes@.len() - i,
    {
        assert(bytes@.skip(i as int).drop_first() == bytes@.skip(i + 1));
        i += 1;
    }
    i
}

/// Bytes that came in and were not read as lines yet.
#[derive(Debug)]
pub struct LineBuffer {
    pub bytes: Vec<u8>,
}

impl LineBuffer {
    pub fn new() -> (r: LineBuffer)
        ensures
            r.bytes@.len() == 0,
    {
        LineBuffer { bytes: Vec::new() }
    }

    /// Takes what came in.
    pub fn push(&mut self, data: &[u8])
        ensures
            final(self).bytes@ == old(self).bytes@ + data@,
    {
        self.bytes.extend_from_slice(data);
    }

    /// The text of the next complete line that holds any, if there is one. What was read
    /// leaves the buffer.
    pub fn next_line(&mut self) -> (r: Option<String>)
        ensures
            r is Some <==> texts(old(self).bytes@).len() > 0,
            r matches Some(text) ==> text@ == texts(old(self).bytes@)[0] && texts(
                final(self).bytes@,
            ) == texts(old(self).bytes@).drop_first(),
            r is None ==> final(self).bytes@ == remainder(old(self).bytes@),
            remainder(final(self).bytes@) == remainder(old(self).bytes@),
    {
        let ghost all = self.bytes@;
        loop
            invariant
                all == old(self).bytes@,
                texts(self.bytes@) == texts(all),
                remainder(self.bytes@) == remainder(all),
            decreases self.bytes@.len(),
        {
            let n: usize = find_newline(&self.bytes);
            if n >= self.bytes.len() {
                return None;
            }
            let ghost before = self.bytes@;
            let line = slice_subrange(self.bytes.as_slice(), 0, n + 1);
            assert(line@ == before.take(n + 1));
            let text = trim(text_lossy(line).as_str());
            let mut rest: Vec<u8> = Vec::new();
            rest.extend_from_slice(
                slice_subrange(self.bytes.as_slice(), n + 1, self.bytes.len()),
            );
            assert(rest@ == before.skip(n + 1));
            self.bytes = rest;
            if !text.as_str().is_empty() {
                proof {
                    let t = texts(before);
                    assert(t == seq![text@] + texts(rest@));
                    assert(t.drop_first() =~= texts(rest@));
                }
                return Some(text);
            }
        }
    }
}

/// Lines come out the same whatever pieces the bytes came in: reading `a` and then `b`
/// gives the lines of both put together, and leaves the same behind.
pub proof fn law_framing_in_pieces(a: Seq<u8>, b: Seq<u8>)
    ensures
        texts(a + b) == texts(a) + texts(remainder(a) + b),
        remainder(a + b) == remainder(remainder(a) + b),
    decreases a.len(),
{
    lemma_line_len(a, b);
    let n = line_len(a);
    if n < a.len() {
        assert((a + b).take(n + 1) == a.take(n + 1));
        assert((a + b).skip(n + 1) == a.skip(n + 1) + b);
        law_framing_in_pieces(a.skip(n + 1), b);
        let text = line_text(a.take(n + 1));
        if text.len() > 0 {
            let rest = texts(a.skip(n + 1));
            let tail = texts(remainder(a) + b);
            assert(seq![text] + (rest + tail) =~= (seq![text] + rest) + tail);
        }
    } else {
        assert(texts(a) + texts(a + b) =~= texts(a + b));
    }
}

proof fn lemma_line_len(a: Seq<u8>, b: Seq<u8>)
    ensures
        0 <= line_len(a) <= a.len(),
        line_len(a) < a.len() ==> line_len(a + b) == line_len(a),
    decreases a.len(),
{
    if a.len() > 0 && a[0] != NEWLINE {
        lemma_line_len(a.drop_first(), b);
        assert((a + b).drop_first() == a.drop_first() + b);
        assert((a + b)[0] == a[0]);
    } else if a.len() > 0 {
        assert((a + b)[0] == a[0]);
    }
}

/// A message that was sent as a line is read as it was, when it holds no newline and no
/// white space at its ends; and nothing is left behind.
pub proof fn law_sent_line_is_read(json: Seq<char>)
    requires
        !json.contains('\n'),
        json.len() > 0,
        crate::text::trimmed(json) == json,
    ensures
        texts(encode_utf8(json.push('\n'))) == seq![json],
        remainder(encode_utf8(json.push('\n'))).len() == 0,
{
    let line = json.push('\n');
    let bytes = encode_utf8(line);
    lemma_only_last_newline(json);
    let n = line_len(bytes);
    assert(bytes.take(n + 1) == bytes);
    encode_utf8_valid_utf8(line);
    encode_utf8_decode_utf8(line);
    crate::text::law_trim_ignores_ends(json, '\n', '\n');
    assert(line_text(bytes) == json);
    let rest = bytes.skip(n + 1);
    assert(rest.len() == 0);
    assert(line_len(rest) == 0);
    assert(texts(rest) =~= Seq::empty());
    assert(texts(bytes) =~= seq![json]);
    assert(remainder(rest) == rest);
}

proof fn lemma_only_last_newline(json: Seq<char>)
    requires
        !json.contains('\n'),
    ensures
        line_len(encode_utf8(json.push('\n'))) + 1 == encode_utf8(json.push('\n')).len(),
    decreases json.len(),
{
    let line = json.push('\n');
    if json.len() == 0 {
        let c: u32 = '\n' as u32;
        assert(line[0] == '\n');
        assert(line.drop_first() =~= Seq::empty());
        reveal_with_fuel(encode_utf8, 2);
        assert((c & 0x7F) as u8 == 10) by (bit_vector)
            requires
                c == 10,
        ;
        assert(encode_scalar(c) == seq![10u8]);
        assert(encode_utf8(line) =~= seq![10u8]);
        assert(encode_utf8(line)[0] == NEWLINE);
    } else {
        let rest = json.drop_first();
        assert forall|i: int| 0 <= i < rest.len() implies rest[i] != '\n' by {
            assert(json.contains(json[i + 1]));
        }
        assert(!rest.contains('\n'));
        lemma_only_last_newline(rest);
        assert(line.drop_first() == rest.push('\n'));
        assert(line[0] == json[0]);
        assert(json.contains(json[0]));
        let first = encode_scalar(json[0] as u32);
        lemma_scalar_without_newline(json[0]);
        let tail = encode_utf8(rest.push('\n'));
        assert(encode_utf8(line) == first + tail);
        lemma_line_len_behind(first, tail);
    }
}

proof fn lemma_scalar_without_newline(c: char)
    requires
        c != '\n',
    ensures
        forall|i: int|
            0 <= i < encode_scalar(c as u32).len() ==> #[trigger] encode_scalar(c as u32)[i]
                != NEWLINE,
{
    let s: u32 = c as u32;
    char_is_scalar(c);
    assert(s != 10);
    assert(s <= 0x7F && s != 10 ==> (s & 0x7F) as u8 != 10) by (bit_vector);
    assert(0xC0 | ((s >> 6) & 0x1F) as u8 != 10) by (bit_vector);
    assert(0xE0 | ((s >> 12) & 0x0F) as u8 != 10) by (bit_vector);
    assert(0xF0 | ((s >> 18) & 0x7) as u8 != 10) by (bit_vector);
    assert(0x80 | (s & 0x3F) as u8 != 10) by (bit_vector);
    assert(0x80 | ((s >> 6) & 0x3F) as u8 != 10) by (bit_vector);
    assert(0x80 | ((s >> 12) & 0x3F) as u8 != 10) by (bit_vector);
}

proof fn lemma_line_len_behind(first: Seq<u8>, tail: Seq<u8>)
    requires
        forall|i: int| 0 <= i < first.len() ==> #[trigger] first[i] != NEWLINE,
    ensures
        line_len(first + tail) == first.len() + line_len(tail),
    decreases first.len(),
{
    if first.len() == 0 {
        assert(first + tail =~= tail);
    } else {
        assert((first + tail)[0] == first[0]);
        assert((first + tail).drop_first() == first.drop_first() + tail);
        assert forall|i: int| 0 <= i < first.drop_first().len() implies #[trigger] first.drop_first()[i]
            != NEWLINE by {
            assert(first.drop_first()[i] == first[i + 1]);
        }
        lemma_line_len_behind(first.drop_first(), tail);
    }
}

/// What to do with a line that was parsed.
pub enum Incoming {
    /// Hand the answer on.
    Deliver(ServerResponse),
    /// Report these words.
    Report(String),
}

/// `r` is what to do with a line: answers are handed on, and everything else is
/// reported with its text.
pub open spec fn is_incoming(r: Incoming, line: Seq<char>, parsed: Option<Message>) -> bool {
    match parsed {
        Some(Message::Response(response)) => r == Incoming::Deliver(response),
        _ => r matches Incoming::Report(words) && words@
            == "收到无效或非响应类型的消息: "@ + line,
    }
}

/// Decides what to do with a line that parsed to `parsed`, or to nothing.
pub fn handle_response(line: &str, parsed: Option<Message>) -> (r: Incoming)
    ensures
        is_incoming(r, line@, parsed),
{
    match parsed {
        Some(Message::Response(response)) => Incoming::Deliver(response),
        _ => Incoming::Report(cat2("收到无效或非响应类型的消息: ", line)),
    }
}

/// What came in on the channel to the remote host.
#[derive(Debug)]
pub enum ChannelEvent {
    /// Bytes of the remote program's output.
    Data(Vec<u8>),
    /// The remote program has ended.
    ExitStatus(u32),
    /// Anything else.
    Other,
    /// The channel is closed.
    Closed,
}

/// What happened at the communicator.
#[derive(Debug)]
pub enum CommEvent {
    /// There is a request to send.
    Request,
    /// No more requests will come.
    RequestsClosed,
    /// A request could not be sent.
    SendFailed,
    Channel(ChannelEvent),
}

/// What the communicator does next.
#[derive(Debug)]
pub enum CommAction {
    /// Send the request as a line.
    Send,
    /// Read the complete lines in the buffer, then go on.
    ReadLines,
    /// Go on.
    Wait,
    /// Report these words, then stop.
    ReportAndStop(String),
    Stop,
}

/// The communicator between the client and the channel to the remote host.
#[derive(Debug)]
pub struct SSHCommunicator {
    pub buffer: LineBuffer,
}

impl SSHCommunicator {
    pub fn new() -> (r: SSHCommunicator)
        ensures
            r.buffer.bytes@.len() == 0,
    {
        SSHCommunicator { buffer: LineBuffer::new() }
    }

    /// `r` is what the communicator does on an event: it stops when no more requests
    /// come, when one could not be sent, and when the channel is closed.
    pub open spec fn is_action(r: CommAction, event: CommEvent) -> bool {
        match event {
            CommEvent::Request => r is Send,
            CommEvent::RequestsClosed => r is Stop,
            CommEvent::SendFailed => r matches CommAction::ReportAndStop(words) && words@
                == "发送命令失败，通信器退出。"@,
            CommEvent::Channel(ChannelEvent::Data(_)) => r is ReadLines,
            CommEvent::Channel(ChannelEvent::Closed) => r is Stop,
            CommEvent::Channel(_) => r is Wait,
        }
    }

    /// Takes an event. Only bytes of output change the buffer.
    pub fn run(&mut self, event: CommEvent) -> (r: CommAction)
        ensures
            SSHCommunicator::is_action(r, event),
            final(self).buffer.bytes@ == match event {
                CommEvent::Channel(ChannelEvent::Data(data)) => old(self).buffer.bytes@ + data@,
                _ => old(self).buffer.bytes@,
            },
    {
        match event {
            CommEvent::Request => CommAction::Send,
            CommEvent::RequestsClosed => CommAction::Stop,
            CommEvent::SendFailed => CommAction::ReportAndStop(
                "发送命令失败，通信器退出。".to_owned(),
            ),
            CommEvent::Channel(ChannelEvent::Data(data)) => {
                self.buffer.push(data.as_slice());
                CommAction::ReadLines
            },
            CommEvent::Channel(ChannelEvent::Closed) => CommAction::Stop,
            CommEvent::Channel(_) => CommAction::Wait,
        }
    }
}

/// An answer of the remote side is handed on as it is, whatever its line looks like; a line
/// that is none is reported as it is, and nothing else is handed on.
pub proof fn law_only_answers_are_handed_on(
    r: Incoming,
    line: Seq<char>,
    parsed: Option<Message>,
)
    requires
        is_incoming(r, line, parsed),
    ensures
        parsed matches Some(Message::Response(response)) ==> r == Incoming::Deliver(response),
        r matches Incoming::Deliver(response) ==> parsed == Some(Message::Response(response)),
        r matches Incoming::Report(words) ==> crate::text::closes_with(words@, line),
{
    crate::text::law_closes_with_its_end("收到无效或非响应类型的消息: "@, line);
}

/// The communicator goes on as long as there is anything to carry: requests are sent and
/// output is read, and it stops just when no more requests come, one could not be sent, or
/// the channel is closed.
pub proof fn law_communicator_carries_on(r: CommAction, event: CommEvent)
    requires
        SSHCommunicator::is_action(r, event),
    ensures
        r is Send <==> event is Request,
        r is ReadLines <==> (event matches CommEvent::Channel(ChannelEvent::Data(_))),
        r is Stop || r is ReportAndStop <==> event is RequestsClosed || event is SendFailed
            || event == CommEvent::Channel(ChannelEvent::Closed),
        r is ReportAndStop <==> event is SendFailed,
        r is Wait ==> event is Channel,
{
}

/// A line ends with the character that ends lines, and a byte that is none stays in its line.
pub proof fn law_lines_end_at_newlines(first: Seq<u8>, tail: Seq<u8>)
    requires
        forall|i: int| 0 <= i < first.len() ==> #[trigger] first[i] != '\n' as u8,
    ensures
        NEWLINE == '\n' as u8,
        line_len(first) == first.len(),
        line_len(first + seq!['\n' as u8] + tail) == first.len(),
        texts(first) == Seq::<Seq<char>>::empty(),
        remainder(first) == first,
        remainder(first + seq!['\n' as u8] + tail) == remainder(tail),
        texts(first + seq!['\n' as u8] + tail) == if line_text(first + seq!['\n' as u8]).len()
            == 0 {
            texts(tail)
        } else {
            seq![line_text(first + seq!['\n' as u8])] + texts(tail)
        },
{
    let rest = seq!['\n' as u8] + tail;
    assert forall|i: int| 0 <= i < first.len() implies #[trigger] first[i] != NEWLINE by {}
    lemma_line_len_behind(first, Seq::empty());
    assert(first + Seq::<u8>::empty() =~= first);
    lemma_line_len_behind(first, rest);
    assert(rest[0] == NEWLINE);
    let all = first + seq!['\n' as u8] + tail;
    assert(all =~= first + rest);
    let n = line_len(all);
    assert(all.take(n + 1) =~= first + seq!['\n' as u8]);
    assert(all.skip(n + 1) =~= tail);
}

}

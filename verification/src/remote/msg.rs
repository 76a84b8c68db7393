//! Requests that come in line by line.
use crate::common::interface::{ClientRequest, Message, ServerResponse};
use crate::text::{cat2, trim};
use vstd::prelude::*;

verus! {

/// What came of reading one line.
#[derive(Debug)]
pub enum LineRead {
    /// The client has closed its side.
    End,
    Line(String),
    /// Reading failed, for this reason.
    Failed(String),
}

/// What to do with what was read.
#[derive(Debug)]
pub enum LineStep {
    /// Stop reading.
    Stop,
    /// Tell the client, and stop reading.
    ReplyAndStop(ServerResponse),
    /// Read on.
    Skip,
    /// Parse this text.
    Parse(String),
}

/// `r` is what to do with what was read: lines without text do not count, and text is
/// taken without the white space around it.
pub open spec fn is_line_step(r: LineStep, read: LineRead) -> bool {
    match read {
        LineRead::End => r is Stop,
        LineRead::Failed(reason) => r matches LineStep::ReplyAndStop(e)
            && crate::common::interface::is_error(e, "读取 stdin 失败: "@ + reason@),
        LineRead::Line(line) => if crate::text::trimmed(line@).len() == 0 {
            r is Skip
        } else {
            r matches LineStep::Parse(text) && text@ == crate::text::trimmed(line@)
        },
    }
}

/// Decides what to do with what was read.
pub fn on_read(read: LineRead) -> (r: LineStep)
    ensures
        is_line_step(r, read),
{
    match read {
        LineRead::End => LineStep::Stop,
        LineRead::Failed(reason) => LineStep::ReplyAndStop(
            ServerResponse::Error(cat2("读取 stdin 失败: ", reason.as_str())),
        ),
        LineRead::Line(line) => {
            let text = trim(line.as_str());
            if text.as_str().unicode_len() == 0 {
                LineStep::Skip
            } else {
                LineStep::Parse(text)
            }
        },
    }
}

/// What to do with a text that was parsed.
pub enum ParsedStep {
    /// Hand the request on.
    Forward(ClientRequest),
    /// Tell the client, and read on.
    Reply(ServerResponse),
}

/// `r` is what to do with a parsed text: requests are handed on, and everything else is
/// answered with an error.
pub open spec fn is_parsed_step(r: ParsedStep, parsed: Result<Message, String>) -> bool {
    match parsed {
        Ok(Message::Request(request)) => r == ParsedStep::Forward(request),
        Ok(Message::Response(_)) => r matches ParsedStep::Reply(e)
            && crate::common::interface::is_error(
            e,
            "协议错误：收到了非 Request 类型的消息。"@,
        ),
        Err(reason) => r matches ParsedStep::Reply(e) && crate::common::interface::is_error(
            e,
            "无法解析 JSON: "@ + reason@,
        ),
    }
}

/// Decides what to do with a text that was parsed.
pub fn on_parsed(parsed: Result<Message, String>) -> (r: ParsedStep)
    ensures
        is_parsed_step(r, parsed),
{
    match parsed {
        Ok(Message::Request(request)) => ParsedStep::Forward(request),
        Ok(Message::Response(_)) => ParsedStep::Reply(
            ServerResponse::Error("协议错误：收到了非 Request 类型的消息。".to_owned()),
        ),
        Err(reason) => ParsedStep::Reply(
            ServerResponse::Error(cat2("无法解析 JSON: ", reason.as_str())),
        ),
    }
}

/// A request that came in is read: any line that holds text is parsed, as the text without
/// the white space around it; one that holds none is passed over, and only the end of the
/// input or a failure stops the reading.
pub proof fn law_line_with_text_is_parsed(r: LineStep, read: LineRead)
    requires
        is_line_step(r, read),
    ensures
        read matches LineRead::Line(line) ==> (r matches LineStep::Parse(text) <==> exists|i: int|
            0 <= i < line@.len() && !crate::text::is_white_space(#[trigger] line@[i])),
        read matches LineRead::Line(line) ==> (r matches LineStep::Parse(text) ==> text@
            == crate::text::trimmed(line@)),
        read is Line ==> r is Parse || r is Skip,
        r is Stop <==> read is End,
        read matches LineRead::Failed(reason) ==> (r matches LineStep::ReplyAndStop(
            ServerResponse::Error(words),
        ) && crate::text::closes_with(words@, reason@)),
{
    if let LineRead::Line(line) = read {
        let ends = crate::text::law_trim_takes_only_white_space(line@);
        if ends.0 < ends.1 {
            assert(!crate::text::is_white_space(line@[ends.0]));
        } else {
            assert forall|i: int| 0 <= i < line@.len() implies crate::text::is_white_space(
                #[trigger] line@[i],
            ) by {
                assert(i < ends.0 || ends.1 <= i);
            }
        }
    }
    if let LineRead::Failed(reason) = read {
        crate::text::law_closes_with_its_end("读取 stdin 失败: "@, reason@);
    }
}

/// A request that was parsed is handed on as it is, and everything else is answered with an
/// error: nothing else is handed on.
pub proof fn law_only_requests_are_handed_on(r: ParsedStep, parsed: Result<Message, String>)
    requires
        is_parsed_step(r, parsed),
    ensures
        parsed matches Ok(Message::Request(request)) ==> r == ParsedStep::Forward(request),
        r matches ParsedStep::Forward(request) ==> parsed == Ok::<Message, String>(
            Message::Request(request),
        ),
        !(r is Forward) ==> (r matches ParsedStep::Reply(ServerResponse::Error(_))),
        parsed matches Err(reason) ==> (r matches ParsedStep::Reply(ServerResponse::Error(words))
            && crate::text::closes_with(words@, reason@)),
{
    if let Err(reason) = parsed {
        crate::text::law_closes_with_its_end("无法解析 JSON: "@, reason@);
    }
}

}

//! A communicator that ends its side of the channel first, and waits for the remote
//! program.
use crate::client::comm::{ChannelEvent, LineBuffer};
use crate::text::cat2;
use vstd::prelude::*;

verus! {

/// What happened at the communicator.
#[derive(Debug)]
pub enum CommEvent {
    /// There is a request to send.
    Request,
    /// No more requests will come.
    RequestsClosed,
    /// A request could not be sent.
    SendFailed,
    /// The end of the requests could not be sent, for this reason.
    EofFailed(String),
    Channel(ChannelEvent),
    /// Nobody takes the answers any more.
    DeliveryFailed,
}

/// What the communicator does next.
#[derive(Debug)]
pub enum CommAction {
    /// Send the request as a line.
    Send,
    /// Send that no more requests will come.
    SendEof,
    /// Read the complete lines in the buffer, then go on.
    ReadLines,
    /// Go on.
    Wait,
    /// Report these words, then stop.
    ReportAndStop(String),
    Stop,
}

/// The communicator between the client and the channel to the remote host.
#[derive(Debug)]
pub struct SSHCommunicator {
    pub buffer: LineBuffer,
    /// Whether no more requests will come.
    pub command_channel_closed: bool,
}

impl SSHCommunicator {
    pub fn new() -> (r: SSHCommunicator)
        ensures
            r.buffer.bytes@.len() == 0,
            !r.command_channel_closed,
    {
        SSHCommunicator { buffer: LineBuffer::new(), command_channel_closed: false }
    }

    /// `r` is what the communicator does on an event: the end of the requests is passed
    /// on, and it stops when the remote program has ended.
    pub open spec fn is_action(r: CommAction, event: CommEvent) -> bool {
        match event {
            CommEvent::Request => r is Send,
            CommEvent::RequestsClosed => r is SendEof,
            CommEvent::SendFailed => r matches CommAction::ReportAndStop(words) && words@
                == "发送命令失败, I/O Actor 退出。"@,
            CommEvent::EofFailed(reason) => r matches CommAction::ReportAndStop(words) && words@
                == "发送 EOF 失败: "@ + reason@,
            CommEvent::Channel(ChannelEvent::Data(_)) => r is ReadLines,
            CommEvent::Channel(ChannelEvent::ExitStatus(_)) => r is Stop,
            CommEvent::Channel(ChannelEvent::Closed) => r is Stop,
            CommEvent::Channel(ChannelEvent::Other) => r is Wait,
            CommEvent::DeliveryFailed => r is Stop,
        }
    }

    /// Whether the communicator still asks for requests.
    pub fn takes_requests(&self) -> (r: bool)
        ensures
            r == !self.command_channel_closed,
    {
        !self.command_channel_closed
    }

    /// Takes an event. Only bytes of output change the buffer. Behind the end of the
    /// requests none comes any more.
    pub fn run(&mut self, event: CommEvent) -> (r: CommAction)
        requires
            event is Request || event is RequestsClosed ==> !old(self).command_channel_closed,
        ensures
            SSHCommunicator::is_action(r, event),
            final(self).command_channel_closed == (old(self).command_channel_closed
                || event is RequestsClosed),
            final(self).buffer.bytes@ == match event {
                CommEvent::Channel(ChannelEvent::Data(data)) => old(self).buffer.bytes@ + data@,
                _ => old(self).buffer.bytes@,
            },
    {
        match event {
            CommEvent::Request => CommAction::Send,
            CommEvent::RequestsClosed => {
                self.command_channel_closed = true;
                CommAction::SendEof
            },
            CommEvent::SendFailed => CommAction::ReportAndStop(
                "发送命令失败, I/O Actor 退出。".to_owned(),
            ),
            CommEvent::EofFailed(reason) => CommAction::ReportAndStop(
                cat2("发送 EOF 失败: ", reason.as_str()),
            ),
            CommEvent::Channel(ChannelEvent::Data(data)) => {
                self.buffer.push(data.as_slice());
                CommAction::ReadLines
            },
            CommEvent::Channel(ChannelEvent::ExitStatus(_)) => CommAction::Stop,
            CommEvent::Channel(ChannelEvent::Closed) => CommAction::Stop,
            CommEvent::Channel(ChannelEvent::Other) => CommAction::Wait,
            CommEvent::DeliveryFailed => CommAction::Stop,
        }
    }
}

/// The communicator goes on as long as the remote program runs: requests are sent, their end
/// is passed on, output is read, and it stops just when the program has ended, the channel
/// is closed, nothing can be sent, or nobody takes the answers.
pub proof fn law_communicator_waits_for_the_end(r: CommAction, event: CommEvent)
    requires
        SSHCommunicator::is_action(r, event),
    ensures
        r is Send <==> event is Request,
        r is SendEof <==> event is RequestsClosed,
        r is ReadLines <==> (event matches CommEvent::Channel(ChannelEvent::Data(_))),
        r is Wait <==> event == CommEvent::Channel(ChannelEvent::Other),
        r is Stop || r is ReportAndStop <==> event is SendFailed || event is EofFailed
            || event is DeliveryFailed || event == CommEvent::Channel(ChannelEvent::Closed) || (
        event matches CommEvent::Channel(ChannelEvent::ExitStatus(_))),
        event matches CommEvent::EofFailed(reason) ==> (r matches CommAction::ReportAndStop(
            words,
        ) && crate::text::closes_with(words@, reason@)),
{
    if let CommEvent::EofFailed(reason) = event {
        crate::text::law_closes_with_its_end("发送 EOF 失败: "@, reason@);
    }
}

}

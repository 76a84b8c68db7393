//! Two progress bars, and messages above them.
use crate::client::bar::Bar;
use crate::number::two_digits_of;
use crate::text::{cat2, cat4, cat5};
use vstd::prelude::*;

verus! {

/// How important a message is.
#[derive(Debug, Clone, Copy, PartialEq, Eq, Structural)]
pub enum LogLevel {
    Error,
    Info,
    Debug,
}

impl LogLevel {
    /// Errors come first, then information, then details.
    pub open spec fn rank(self) -> nat {
        match self {
            LogLevel::Error => 0,
            LogLevel::Info => 1,
            LogLevel::Debug => 2,
        }
    }

    fn rank_of(self) -> (r: u8)
        ensures
            r == self.rank(),
    {
        match self {
            LogLevel::Error => 0,
            LogLevel::Info => 1,
            LogLevel::Debug => 2,
        }
    }

    /// How the level is shown.
    pub open spec fn tag(self) -> Seq<char> {
        match self {
            LogLevel::Error => "[ERROR]"@,
            LogLevel::Info => "[INFO]"@,
            LogLevel::Debug => "[DEBUG]"@,
        }
    }
}

/// The time of day in the eighth zone east, from the seconds since 1970.
pub open spec fn clock_text(seconds: nat) -> Seq<char> {
    let t = seconds + 28800;
    "["@ + crate::number::two_digits(t / 3600 % 24) + ":"@ + crate::number::two_digits(t / 60 % 60)
        + ":"@ + crate::number::two_digits(t % 60) + "] "@
}

/// Writes the time of day.
pub fn clock(seconds: u64) -> (r: String)
    requires
        seconds + 28800 <= u64::MAX,
    ensures
        r@ == clock_text(seconds as nat),
{
    let t: u64 = seconds + 28800;
    let mut out = cat5(
        "[",
        two_digits_of(t / 3600 % 24).as_str(),
        ":",
        two_digits_of(t / 60 % 60).as_str(),
        ":",
    );
    out.append(two_digits_of(t % 60).as_str());
    out.append("] ");
    out
}

/// The state of both bars.
#[derive(Debug)]
pub struct AllProgressBar {
    pub completed_chunks: u64,
    pub log_level: LogLevel,
    pub upload: Bar,
    pub download: Bar,
}

impl AllProgressBar {
    /// Both bars behind the chunks that are done.
    pub fn new(total_chunks: u64, completed_chunks: u64, log_level: LogLevel) -> (r: AllProgressBar)
        ensures
            r.completed_chunks == completed_chunks,
            r.log_level == log_level,
            r.upload == (Bar { len: total_chunks, position: completed_chunks, ended: false }),
            r.download == r.upload,
    {
        AllProgressBar {
            completed_chunks,
            log_level,
            upload: Bar::new(total_chunks, completed_chunks),
            download: Bar::new(total_chunks, completed_chunks),
        }
    }

    pub fn update_upload(&mut self)
        ensures
            *final(self) == (AllProgressBar { upload: old(self).upload.stepped(), ..*old(self) }),
    {
        self.upload.step();
    }

    pub fn update_download(&mut self)
        ensures
            *final(self) == (AllProgressBar {
                download: old(self).download.stepped(),
                ..*old(self)
            }),
    {
        self.download.step();
    }

    pub fn finish_upload(&mut self)
        ensures
            *final(self) == (AllProgressBar { upload: old(self).upload.finished(), ..*old(self) }),
    {
        self.upload.finish();
    }

    pub fn finish_download(&mut self)
        ensures
            *final(self) == (AllProgressBar {
                download: old(self).download.finished(),
                ..*old(self)
            }),
    {
        self.download.finish();
    }

    /// `r` is the line for a message: none for one that is not important enough. The time
    /// is missing when the clock stands before 1970.
    pub open spec fn is_line(
        self,
        r: Option<String>,
        level: LogLevel,
        msg: Seq<char>,
        seconds: Option<u64>,
    ) -> bool {
        if level.rank() > self.log_level.rank() {
            r is None
        } else {
            r matches Some(line) && line@ == (match seconds {
                Some(s) => clock_text(s as nat),
                None => "[--:--:--] "@,
            }) + level.tag() + " "@ + msg
        }
    }

    fn log(&self, level: LogLevel, msg: &str, seconds: Option<u64>) -> (r: Option<String>)
        requires
            seconds matches Some(s) ==> s + 28800 <= u64::MAX,
        ensures
            self.is_line(r, level, msg@, seconds),
    {
        if level.rank_of() > self.log_level.rank_of() {
            return None;
        }
        let tag = match level {
            LogLevel::Error => "[ERROR]",
            LogLevel::Info => "[INFO]",
            LogLevel::Debug => "[DEBUG]",
        };
        let time = match seconds {
            Some(s) => clock(s),
            None => "[--:--:--] ".to_owned(),
        };
        Some(cat4(time.as_str(), tag, " ", msg))
    }

    /// The line for an error.
    pub fn log_error(&self, msg: &str, seconds: Option<u64>) -> (r: Option<String>)
        requires
            seconds matches Some(s) ==> s + 28800 <= u64::MAX,
        ensures
            self.is_line(r, LogLevel::Error, msg@, seconds),
    {
        self.log(LogLevel::Error, msg, seconds)
    }

    /// The line for information.
    pub fn log_info(&self, msg: &str, seconds: Option<u64>) -> (r: Option<String>)
        requires
            seconds matches Some(s) ==> s + 28800 <= u64::MAX,
        ensures
            self.is_line(r, LogLevel::Info, msg@, seconds),
    {
        self.log(LogLevel::Info, msg, seconds)
    }

    /// The line for a detail.
    pub fn log_debug(&self, msg: &str, seconds: Option<u64>) -> (r: Option<String>)
        requires
            seconds matches Some(s) ==> s + 28800 <= u64::MAX,
        ensures
            self.is_line(r, LogLevel::Debug, msg@, seconds),
    {
        self.log(LogLevel::Debug, msg, seconds)
    }
}

/// The last words of a spinner: those for success, or those about the error.
pub fn run_with_spinner(success_msg: &str, error: &Option<String>) -> (r: String)
    ensures
        r@ == match *error {
            None => success_msg@,
            Some(e) => "❌ 运行失败: "@ + e@,
        },
{
    match error {
        None => success_msg.to_owned(),
        Some(e) => cat2("❌ 运行失败: ", e.as_str()),
    }
}

/// The clock shows the time of day in the eighth zone east: the hours, minutes and seconds
/// that have passed there since midnight, two digits each.
pub proof fn law_clock_shows_the_time_of_day(seconds: nat) -> (shown: (nat, nat, nat))
    ensures
        clock_text(seconds) == "["@ + crate::number::two_digits(shown.0) + ":"@
            + crate::number::two_digits(shown.1) + ":"@ + crate::number::two_digits(shown.2)
            + "] "@,
        shown.0 < 24,
        shown.1 < 60,
        shown.2 < 60,
        shown.0 * 3600 + shown.1 * 60 + shown.2 == (seconds + 8 * 3600) % 86400,
{
    let t = seconds + 28800;
    (t / 3600 % 24, t / 60 % 60, t % 60)
}

/// What is printed is the message, with the level in front of it; and only messages that are
/// less important than was asked for are kept back.
pub proof fn law_bar_line_holds_the_message(
    bars: AllProgressBar,
    r: Option<String>,
    level: LogLevel,
    msg: Seq<char>,
    seconds: Option<u64>,
)
    requires
        bars.is_line(r, level, msg, seconds),
    ensures
        level == LogLevel::Error ==> r is Some,
        bars.log_level == LogLevel::Debug ==> r is Some,
        level == bars.log_level ==> r is Some,
        bars.log_level == LogLevel::Info ==> (r is None <==> level == LogLevel::Debug),
        bars.log_level == LogLevel::Error ==> (r is Some <==> level == LogLevel::Error),
        r is Some ==> crate::text::closes_with(r->0@, level.tag() + " "@ + msg),
        LogLevel::Error.tag() == "[ERROR]"@,
        LogLevel::Info.tag() == "[INFO]"@,
        LogLevel::Debug.tag() == "[DEBUG]"@,
        r is Some && seconds is Some ==> r->0@.take(
            clock_text(seconds->0 as nat).len() as int,
        ) == clock_text(seconds->0 as nat),
{
    if r is Some {
        let head = match seconds {
            Some(s) => clock_text(s as nat),
            None => "[--:--:--] "@,
        };
        let tail = level.tag() + " "@ + msg;
        assert(r->0@ =~= head + tail);
        crate::text::law_closes_with_its_end(head, tail);
        assert(r->0@.take(head.len() as int) =~= head);
    }
}

}

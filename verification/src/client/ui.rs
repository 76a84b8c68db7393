//! The client's one progress bar, and what it prints.
use crate::client::bar::Bar;
use crate::text::cat5;
use vstd::prelude::*;

verus! {

/// How important a message is.
#[derive(Debug, Clone, Copy, PartialEq, Eq, Structural)]
pub enum LogLevel {
    Error,
    Warn,
    Info,
    Debug,
}

impl LogLevel {
    /// Errors come first, then warnings, information and details.
    pub open spec fn rank(self) -> nat {
        match self {
            LogLevel::Error => 0,
            LogLevel::Warn => 1,
            LogLevel::Info => 2,
            LogLevel::Debug => 3,
        }
    }

    fn rank_of(self) -> (r: u8)
        ensures
            r == self.rank(),
    {
        match self {
            LogLevel::Error => 0,
            LogLevel::Warn => 1,
            LogLevel::Info => 2,
            LogLevel::Debug => 3,
        }
    }

    /// How the level is shown: details are shown as information.
    pub open spec fn tag(self) -> Seq<char> {
        match self {
            LogLevel::Error => "ERROR"@,
            LogLevel::Warn => "WARN"@,
            LogLevel::Info => "INFO"@,
            LogLevel::Debug => "INFO"@,
        }
    }
}

/// Whether the progress bar is on the screen.
#[derive(Debug, Clone, Copy, PartialEq, Eq, Structural)]
pub enum ProgressBarState {
    NotStarted,
    Running,
    Finished,
}

/// The logger and its bar, once there is one.
#[derive(Debug)]
pub struct AllProgressBar {
    pub log_level: LogLevel,
    pub download: Option<Bar>,
    pub state: ProgressBarState,
}

/// One line to print.
#[derive(Debug)]
pub struct Line {
    pub text: String,
    /// Whether it goes above the bar.
    pub above_bar: bool,
}

impl AllProgressBar {
    /// A logger without a bar.
    pub fn new(log_level: LogLevel) -> (r: AllProgressBar)
        ensures
            r == (AllProgressBar {
                log_level,
                download: None,
                state: ProgressBarState::NotStarted,
            }),
    {
        AllProgressBar { log_level, download: None, state: ProgressBarState::NotStarted }
    }

    /// `r` is the line for a message: none for one that is not important enough.
    /// Information is printed as it is, everything else with the time and the level. The
    /// line goes above the bar while that runs.
    pub open spec fn is_line(
        self,
        r: Option<Line>,
        level: LogLevel,
        msg: Seq<char>,
        time: Seq<char>,
    ) -> bool {
        if level.rank() > self.log_level.rank() {
            r is None
        } else {
            &&& r matches Some(line)
            &&& line.above_bar == (self.state == ProgressBarState::Running)
            &&& line.text@ == if level == LogLevel::Info {
                msg
            } else {
                "["@ + time + "] ["@ + level.tag() + "] "@ + msg
            }
        }
    }

    fn log(&self, level: LogLevel, msg: &str, time: &str) -> (r: Option<Line>)
        ensures
            self.is_line(r, level, msg@, time@),
    {
        if level.rank_of() > self.log_level.rank_of() {
            return None;
        }
        let above_bar = self.state == ProgressBarState::Running;
        if level == LogLevel::Info {
            return Some(Line { text: msg.to_owned(), above_bar });
        }
        let tag = match level {
            LogLevel::Error => "ERROR",
            LogLevel::Warn => "WARN",
            LogLevel::Info => "INFO",
            LogLevel::Debug => "INFO",
        };
        let mut text = cat5("[", time, "] [", tag, "] ");
        text.append(msg);
        Some(Line { text, above_bar })
    }

    pub fn log_error(&self, msg: &str, time: &str) -> (r: Option<Line>)
        ensures
            self.is_line(r, LogLevel::Error, msg@, time@),
    {
        self.log(LogLevel::Error, msg, time)
    }

    pub fn log_warn(&self, msg: &str, time: &str) -> (r: Option<Line>)
        ensures
            self.is_line(r, LogLevel::Warn, msg@, time@),
    {
        self.log(LogLevel::Warn, msg, time)
    }

    pub fn log_info(&self, msg: &str, time: &str) -> (r: Option<Line>)
        ensures
            self.is_line(r, LogLevel::Info, msg@, time@),
    {
        self.log(LogLevel::Info, msg, time)
    }

    pub fn log_debug(&self, msg: &str, time: &str) -> (r: Option<Line>)
        ensures
            self.is_line(r, LogLevel::Debug, msg@, time@),
    {
        self.log(LogLevel::Debug, msg, time)
    }

    /// Puts up the bar. There can be only one.
    pub fn init_download_bar(&mut self, total_chunks: u64, completed_chunks: u64) -> (r: Result<
        (),
        String,
    >)
        ensures
            r is Ok <==> old(self).download is None,
            r is Ok ==> *final(self) == (AllProgressBar {
                download: Some(
                    Bar { len: total_chunks, position: completed_chunks, ended: false },
                ),
                ..*old(self)
            }),
            r matches Err(e) ==> *final(self) == *old(self) && e@
                == "下载进度条已经初始化过了"@,
    {
        if self.download.is_some() {
            return Err("下载进度条已经初始化过了".to_owned());
        }
        self.download = Some(Bar::new(total_chunks, completed_chunks));
        Ok(())
    }

    /// One more chunk is done.
    pub fn update_download(&mut self)
        requires
            old(self).download is Some,
        ensures
            *final(self) == (AllProgressBar {
                download: Some(old(self).download->0.stepped()),
                ..*old(self)
            }),
    {
        let mut bar = self.download.unwrap();
        bar.step();
        self.download = Some(bar);
    }

    /// Everything is done.
    pub fn finish_download(&mut self)
        requires
            old(self).download is Some,
        ensures
            *final(self) == (AllProgressBar {
                download: Some(old(self).download->0.finished()),
                state: ProgressBarState::Finished,
                ..*old(self)
            }),
    {
        let mut bar = self.download.unwrap();
        bar.finish();
        self.download = Some(bar);
        self.state = ProgressBarState::Finished;
    }

    /// The download was given up.
    pub fn abandon_download(&mut self)
        requires
            old(self).download is Some,
        ensures
            *final(self) == (AllProgressBar {
                download: Some(old(self).download->0.abandoned()),
                state: ProgressBarState::Finished,
                ..*old(self)
            }),
    {
        let mut bar = self.download.unwrap();
        bar.abandon();
        self.download = Some(bar);
        self.state = ProgressBarState::Finished;
    }

    /// The bar runs from now on.
    pub fn start_tick(&mut self)
        requires
            old(self).download is Some,
        ensures
            *final(self) == (AllProgressBar { state: ProgressBarState::Running, ..*old(self) }),
    {
        self.state = ProgressBarState::Running;
    }
}

/// Sets up the client's logger. There can be only one.
pub fn init_global_logger(global: &mut Option<AllProgressBar>, verbose: bool) -> (r: Result<
    (),
    String,
>)
    ensures
        r is Ok <==> *old(global) is None,
        r is Ok ==> *final(global) == Some(
            AllProgressBar {
                log_level: if verbose {
                    LogLevel::Debug
                } else {
                    LogLevel::Info
                },
                download: None,
                state: ProgressBarState::NotStarted,
            },
        ),
        r matches Err(e) ==> *final(global) == *old(global) && e@
            == "全局日志/进度条模块已经初始化过了"@,
{
    if global.is_some() {
        return Err("全局日志/进度条模块已经初始化过了".to_owned());
    }
    let log_level = if verbose {
        LogLevel::Debug
    } else {
        LogLevel::Info
    };
    *global = Some(AllProgressBar::new(log_level));
    Ok(())
}

/// Puts up the client's bar.
pub fn init_global_download_bar(
    global: &mut AllProgressBar,
    total_chunks: u64,
    completed_chunks: u64,
) -> (r: Result<(), String>)
    ensures
        r is Ok <==> old(global).download is None,
        r is Ok ==> *final(global) == (AllProgressBar {
            download: Some(Bar { len: total_chunks, position: completed_chunks, ended: false }),
            ..*old(global)
        }),
        r matches Err(e) ==> *final(global) == *old(global) && e@
            == "下载进度条已经初始化过了"@,
{
    global.init_download_bar(total_chunks, completed_chunks)
}

pub fn start_tick(global: &mut AllProgressBar)
    requires
        old(global).download is Some,
    ensures
        *final(global) == (AllProgressBar { state: ProgressBarState::Running, ..*old(global) }),
{
    global.start_tick();
}

pub fn update_download(global: &mut AllProgressBar)
    requires
        old(global).download is Some,
    ensures
        *final(global) == (AllProgressBar {
            download: Some(old(global).download->0.stepped()),
            ..*old(global)
        }),
{
    global.update_download();
}

pub fn finish_download(global: &mut AllProgressBar)
    requires
        old(global).download is Some,
    ensures
        *final(global) == (AllProgressBar {
            download: Some(old(global).download->0.finished()),
            state: ProgressBarState::Finished,
            ..*old(global)
        }),
{
    global.finish_download();
}

pub fn abandon_download(global: &mut AllProgressBar)
    requires
        old(global).download is Some,
    ensures
        *final(global) == (AllProgressBar {
            download: Some(old(global).download->0.abandoned()),
            state: ProgressBarState::Finished,
            ..*old(global)
        }),
{
    global.abandon_download();
}

pub fn log_debug(global: &AllProgressBar, msg: &str, time: &str) -> (r: Option<Line>)
    ensures
        global.is_line(r, LogLevel::Debug, msg@, time@),
{
    global.log_debug(msg, time)
}

pub fn log_info(global: &AllProgressBar, msg: &str, time: &str) -> (r: Option<Line>)
    ensures
        global.is_line(r, LogLevel::Info, msg@, time@),
{
    global.log_info(msg, time)
}

pub fn log_warn(global: &AllProgressBar, msg: &str, time: &str) -> (r: Option<Line>)
    ensures
        global.is_line(r, LogLevel::Warn, msg@, time@),
{
    global.log_warn(msg, time)
}

pub fn log_error(global: &AllProgressBar, msg: &str, time: &str) -> (r: Option<Line>)
    ensures
        global.is_line(r, LogLevel::Error, msg@, time@),
{
    global.log_error(msg, time)
}

/// Errors, warnings and information are always printed: the client's logger never keeps
/// one back, verbose or not.
pub proof fn law_information_is_printed(global: AllProgressBar, r: Option<Line>, level: LogLevel, msg: Seq<char>, time: Seq<char>)
    requires
        global.log_level == LogLevel::Info || global.log_level == LogLevel::Debug,
        level != LogLevel::Debug,
        global.is_line(r, level, msg, time),
    ensures
        r is Some,
{
}

/// What is printed is the message: it stands at the end of its line, and information is all
/// of it. A line goes above the bar just while that runs.
pub proof fn law_line_holds_the_message(
    global: AllProgressBar,
    r: Option<Line>,
    level: LogLevel,
    msg: Seq<char>,
    time: Seq<char>,
)
    requires
        global.is_line(r, level, msg, time),
        r is Some,
    ensures
        crate::text::closes_with(r->0.text@, msg),
        level == LogLevel::Info ==> r->0.text@ == msg,
        level != LogLevel::Info ==> crate::text::occurs(r->0.text@, "["@ + time + "] "@),
        level == LogLevel::Error ==> crate::text::occurs(r->0.text@, "[ERROR] "@),
        level == LogLevel::Warn ==> crate::text::occurs(r->0.text@, "[WARN] "@),
        r->0.above_bar <==> global.state == ProgressBarState::Running,
{
    let w = r->0.text@;
    let none = Seq::<char>::empty();
    if level == LogLevel::Info {
        assert(w =~= none + msg);
        crate::text::law_closes_with_its_end(none, msg);
    } else {
        crate::text::law_closes_with_its_end("["@ + time + "] ["@ + level.tag() + "] "@, msg);
        reveal_strlit("[");
        reveal_strlit("] [");
        reveal_strlit("] ");
        let n = "["@ + time + "] "@;
        assert(w.subrange(0, n.len() as int) =~= n);
        assert(crate::text::occurs_at(w, n, 0));
        let m = "["@ + level.tag() + "] "@;
        let k = n.len() as int;
        assert(w.subrange(k, k + m.len()) =~= m);
        assert(crate::text::occurs_at(w, m, k));
        reveal_strlit("ERROR");
        reveal_strlit("[ERROR] ");
        reveal_strlit("WARN");
        reveal_strlit("[WARN] ");
        if level == LogLevel::Error {
            assert(m =~= "[ERROR] "@);
        }
        if level == LogLevel::Warn {
            assert(m =~= "[WARN] "@);
        }
    }
}

/// Only details are kept back, and only when they were not asked for; each level takes in
/// those before it.
pub proof fn law_only_details_are_kept_back(
    global: AllProgressBar,
    r: Option<Line>,
    level: LogLevel,
    msg: Seq<char>,
    time: Seq<char>,
)
    requires
        global.is_line(r, level, msg, time),
    ensures
        global.log_level == LogLevel::Debug ==> r is Some,
        global.log_level == LogLevel::Info ==> (r is None <==> level == LogLevel::Debug),
        level == LogLevel::Error ==> r is Some,
        level == global.log_level ==> r is Some,
        LogLevel::Error.rank() < LogLevel::Warn.rank() < LogLevel::Info.rank()
            < LogLevel::Debug.rank(),
{
}

}

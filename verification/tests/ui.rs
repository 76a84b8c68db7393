use gmf::client::progress_bar::{self, clock, run_with_spinner};
use gmf::client::remote_new;
use gmf::client::ui::{
    abandon_download, finish_download, init_global_download_bar, init_global_logger, log_debug,
    log_error, log_info, log_warn, start_tick, update_download, ProgressBarState,
};

#[test]
fn there_is_one_logger() {
    let mut global = None;
    assert!(init_global_logger(&mut global, false).is_ok());
    assert_eq!(
        init_global_logger(&mut global, true).unwrap_err(),
        "全局日志/进度条模块已经初始化过了"
    );
    let logger = global.unwrap();
    assert!(log_debug(&logger, "d", "T").is_none());
    assert_eq!(log_info(&logger, "hello", "T").unwrap().text, "hello");
    assert_eq!(log_warn(&logger, "hm", "T").unwrap().text, "[T] [WARN] hm");
    assert_eq!(log_error(&logger, "no", "T").unwrap().text, "[T] [ERROR] no");
}

#[test]
fn details_are_printed_when_asked_for() {
    let mut global = None;
    init_global_logger(&mut global, true).unwrap();
    let line = log_debug(&global.unwrap(), "d", "T").unwrap();
    assert_eq!(line.text, "[T] [INFO] d");
    assert!(!line.above_bar);
}

#[test]
fn the_bar_of_a_download() {
    let mut global = None;
    init_global_logger(&mut global, false).unwrap();
    let mut ui = global.unwrap();
    init_global_download_bar(&mut ui, 10, 3).unwrap();
    assert_eq!(
        init_global_download_bar(&mut ui, 10, 3).unwrap_err(),
        "下载进度条已经初始化过了"
    );
    start_tick(&mut ui);
    assert_eq!(ui.state, ProgressBarState::Running);
    assert!(log_info(&ui, "x", "T").unwrap().above_bar);
    update_download(&mut ui);
    assert_eq!(ui.download.unwrap().position, 4);
    abandon_download(&mut ui);
    assert_eq!(ui.download.unwrap().position, 4);
    finish_download(&mut ui);
    assert_eq!(ui.download.unwrap().position, 10);
    assert_eq!(ui.state, ProgressBarState::Finished);
    assert!(!log_info(&ui, "x", "T").unwrap().above_bar);
}

#[test]
fn the_clock_is_eight_hours_ahead() {
    assert_eq!(clock(0), "[08:00:00] ");
    assert_eq!(clock(16 * 3600 + 61), "[00:01:01] ");
    assert_eq!(clock(86_399), "[07:59:59] ");
}

#[test]
fn two_bars_and_messages() {
    let mut b = progress_bar::AllProgressBar::new(4, 1, progress_bar::LogLevel::Info);
    b.update_upload();
    b.update_download();
    b.update_download();
    assert_eq!((b.upload.position, b.download.position), (2, 3));
    b.finish_upload();
    b.finish_download();
    assert_eq!((b.upload.position, b.download.position), (4, 4));
    assert_eq!(b.log_info("m", Some(0)).unwrap(), "[08:00:00] [INFO] m");
    assert_eq!(b.log_error("m", None).unwrap(), "[--:--:--] [ERROR] m");
    assert!(b.log_debug("m", Some(0)).is_none());
    let d = progress_bar::AllProgressBar::new(4, 1, progress_bar::LogLevel::Debug);
    assert_eq!(d.log_debug("m", Some(0)).unwrap(), "[08:00:00] [DEBUG] m");
    let e = progress_bar::AllProgressBar::new(4, 1, progress_bar::LogLevel::Error);
    assert!(e.log_info("m", Some(0)).is_none());
}

#[test]
fn the_last_words_of_a_spinner() {
    assert_eq!(run_with_spinner("good", &None), "good");
    assert_eq!(run_with_spinner("good", &Some("bad".to_string())), "❌ 运行失败: bad");
}

#[test]
fn three_bars() {
    let mut b = remote_new::AllProgressBar::new(9, 2);
    b.update_upload();
    b.update_writer();
    b.update_writer();
    b.update_download();
    assert_eq!((b.upload.position, b.download.position, b.writer.position), (3, 3, 4));
}

use gmf::assets::{
    asset_source, cache_filename, embedded_source, is_kept_archive, packs_tightly, AssetInfo,
};
use gmf::cloudflare::cf::{
    http_error, install_worker, pause_of, read_pause, version_path, CloudflareClient, Reaction,
    Retry, Sent,
};
use gmf::cloudflare::config::{get_config, load_config, AppConfig};
use gmf::cloudflare::json::{read_etag, read_workers, Json};
use gmf::cloudflare::worker::{
    bearer, create_worker, enable_workers_dev, etag_noted, etag_path, find_etag, list_outcome,
    list_url, main_part_name, put_url, subdomain_url, upload_outcome, Decision, WorkerEntry,
};

fn config() -> AppConfig {
    AppConfig {
        account_id: "acc".to_string(),
        api_token: "tok".to_string(),
        subdomain: "sub".to_string(),
    }
}

fn some(s: &str) -> Option<String> {
    Some(s.to_string())
}

#[test]
fn addresses_of_the_api() {
    let c = CloudflareClient::new(&config());
    let base = "https://api.cloudflare.com/client/v4";
    assert_eq!(c.auth_header(), "Bearer tok");
    assert_eq!(c.url("///x/"), format!("{base}/x/"));
    assert_eq!(c.upload_url(), format!("{base}/accounts/acc/workers/scripts/gmf"));
    assert_eq!(c.verify_url(), format!("{base}/user/tokens/verify"));
    assert_eq!(c.main_part_name(), "gmf.mjs");
    assert_eq!(list_url("acc"), format!("{base}/accounts/acc/workers/scripts"));
    assert_eq!(put_url("acc"), format!("{base}/accounts/acc/workers/scripts/gmf"));
    assert_eq!(
        subdomain_url("acc"),
        format!("{base}/accounts/acc/workers/scripts/gmf/subdomain")
    );
    assert_eq!(bearer("t"), "Bearer t");
    assert_eq!(main_part_name(), "gmf.mjs");
}

#[test]
fn notes_lie_in_the_cache() {
    assert_eq!(version_path(&some("/c"), &None), "/c/gmf/install_version");
    assert_eq!(version_path(&None, &some("/h")), "/h/.cache/gmf/install_version");
    assert_eq!(etag_path(&some("/c"), &some("/h")), "/c/gmf/worker_etag");
    assert_eq!(etag_path(&None, &some("/h")), "/h/.cache/gmf/worker_etag");
}

#[test]
fn pauses_that_are_asked_for() {
    let date = "Thu, 01 Jan 1970 00:01:00 GMT";
    assert_eq!(read_pause(&None, 0, 7), 7);
    assert_eq!(read_pause(&some("5"), 0, 7), 5_000_000_000);
    assert_eq!(read_pause(&some(date), 10_000_000_000, 7), 50_000_000_000);
    assert_eq!(read_pause(&some(date), 90_000_000_000, 7), 0);
    assert_eq!(read_pause(&some("soon"), 0, 7), 7);
    assert_eq!(pause_of(None, Some(60), 1, 7), 59_999_999_999);
}

#[test]
fn requests_are_repeated_three_times() {
    let mut r = Retry::new();
    let pauses = [300_000_000u128, 600_000_000, 1_200_000_000];
    for pause in pauses {
        match r.send_with_retry(Sent::Failed("net".to_string())) {
            Reaction::PauseAndRetry(p) => assert_eq!(p, pause),
            other => panic!("{other:?}"),
        }
    }
    match r.send_with_retry(Sent::Failed("net".to_string())) {
        Reaction::Fail(w) => assert_eq!(w, "request error after retries: net"),
        other => panic!("{other:?}"),
    }
    assert_eq!(r.attempt(), 3);
}

#[test]
fn answers_are_judged_by_their_status() {
    let answer = |status| Sent::Answered { status, retry_after: None, now_ns: 0 };
    let mut r = Retry::new();
    assert!(matches!(r.send_with_retry(answer(200)), Reaction::Accept));
    assert!(matches!(r.send_with_retry(answer(404)), Reaction::FailWithAnswer));
    let retry = Reaction::PauseAndRetry(300_000_000);
    assert!(matches!((r.send_with_retry(answer(429)), retry), (Reaction::PauseAndRetry(300_000_000), _)));
    let told = Sent::Answered { status: 503, retry_after: some("2"), now_ns: 0 };
    assert!(matches!(r.send_with_retry(told), Reaction::PauseAndRetry(2_000_000_000)));
    assert!(matches!(r.send_with_retry(answer(599)), Reaction::PauseAndRetry(1_200_000_000)));
    assert!(matches!(r.send_with_retry(answer(500)), Reaction::FailWithAnswer));
    assert_eq!(http_error("500 Internal Server Error", "x"), "HTTP 500 Internal Server Error: x");
}

#[test]
fn the_worker_is_installed_once() {
    assert!(install_worker(&None, "1.0"));
    assert!(!install_worker(&some(" 1.0\n"), "1.0"));
    assert!(install_worker(&some("0.9"), "1.0"));
}

fn entry(id: Option<&str>, etag: Option<&str>) -> WorkerEntry {
    WorkerEntry { id: id.map(str::to_string), etag: etag.map(str::to_string) }
}

#[test]
fn the_same_worker_is_not_uploaded() {
    let there = vec![entry(None, Some("z")), entry(Some("other"), Some("y")), entry(Some("gmf"), Some("e1"))];
    assert_eq!(find_etag(&there).as_deref(), Some("e1"));
    match create_worker(&some("e1\n"), &there) {
        Decision::Skip(w) => assert_eq!(w, "✅ Worker 'gmf' 已是最新版本（ETag=e1），跳过上传。"),
        other => panic!("{other:?}"),
    }
    match create_worker(&some("e0"), &there) {
        Decision::Upload(w) => {
            assert_eq!(w.as_deref(), Some("⚙️ Worker 'gmf' 存在但版本不同，准备更新。"));
        }
        other => panic!("{other:?}"),
    }
    assert!(matches!(create_worker(&None, &there), Decision::Upload(None)));
    match create_worker(&some("e1"), &vec![entry(Some("gmf"), None)]) {
        Decision::Upload(w) => {
            assert_eq!(w.as_deref(), Some("ℹ️ Worker 'gmf' 不存在，将创建新版本。"));
        }
        other => panic!("{other:?}"),
    }
}

#[test]
fn answers_about_the_worker() {
    assert!(list_outcome(true, "").is_ok());
    assert_eq!(list_outcome(false, "403").unwrap_err(), "❌ List workers 失败：状态 403");
    assert_eq!(upload_outcome(true, "", "ok").unwrap(), "✅ 上传成功：ok");
    assert_eq!(upload_outcome(false, "400", "x").unwrap_err(), "❌ 上传失败：状态 400，响应：x");
    assert_eq!(etag_noted("e"), "📦 已更新本地缓存 ETag=e");
    assert_eq!(enable_workers_dev(true, "", "ok").unwrap(), "✅ workers.dev 域名启用成功：ok");
    assert_eq!(
        enable_workers_dev(false, "400", "x").unwrap_err(),
        "❌ 启用 workers.dev 失败：状态 400，响应：x"
    );
}

#[test]
fn the_account_is_loaded_once() {
    let mut c = None;
    assert_eq!(
        load_config(&mut c, None, "/p").unwrap_err(),
        "No config found. Please run `gmf config` first.\nExpected at: /p"
    );
    assert!(load_config(&mut c, Some(config()), "/p").is_ok());
    assert_eq!(get_config(&c).account_id, "acc");
    assert_eq!(load_config(&mut c, Some(config()), "/p").unwrap_err(), "CONFIG already initialized");
}

#[test]
fn packed_programs_become_constants() {
    let a = AssetInfo {
        const_prefix: "GMF".to_string(),
        targz_path: "/o/g.tar.gz".to_string(),
        sha256_hex: "ab".to_string(),
    };
    let text = "pub const GMF_TAR_GZ: &[u8] = include_bytes!(r#\"/o/g.tar.gz\"#);\npub const GMF_SHA256: &str = \"ab\";\n";
    assert_eq!(asset_source(&a), text);
    assert_eq!(
        embedded_source(&vec![a]),
        format!("// This file is automatically generated by build.rs. Do not edit.\n\n{text}\n")
    );
}

#[test]
fn kept_archives_are_named_by_their_address() {
    assert_eq!(cache_filename("abc"), "s5cmd_ba7816bf8f01cfea.tar.gz");
    assert!(is_kept_archive("s5cmd_ba7816bf8f01cfea.tar.gz"));
    assert!(is_kept_archive("s5cmd_.tar.gz"));
    assert!(!is_kept_archive("s5cmd.tar.gz"));
    assert!(!is_kept_archive("s5cmd_x.tar"));
    assert!(!is_kept_archive(""));
    assert!(packs_tightly("release"));
    assert!(!packs_tightly("debug"));
}

fn record(entries: Vec<(&str, Json)>) -> Json {
    Json::Record(entries.into_iter().map(|(k, v)| (k.to_string(), v)).collect())
}

#[test]
fn workers_are_read_from_an_answer() {
    let text = |s: &str| Json::Text(s.to_string());
    let list = record(vec![
        ("success", Json::Other),
        (
            "result",
            Json::List(vec![
                record(vec![("id", text("a")), ("etag", text("e0"))]),
                Json::Other,
                record(vec![("id", text("gmf")), ("etag", Json::Other)]),
            ]),
        ),
    ]);
    let found = read_workers(&list);
    assert_eq!(found.len(), 3);
    assert_eq!((found[0].id.as_deref(), found[0].etag.as_deref()), (Some("a"), Some("e0")));
    assert_eq!((found[1].id.as_deref(), found[1].etag.as_deref()), (None, None));
    assert_eq!((found[2].id.as_deref(), found[2].etag.as_deref()), (Some("gmf"), None));
    assert_eq!(read_workers(&Json::Other).len(), 0);
    assert_eq!(read_workers(&record(vec![("result", text("x"))])).len(), 0);
    let answer = record(vec![("result", record(vec![("etag", text("e1"))]))]);
    assert_eq!(read_etag(&answer).as_deref(), Some("e1"));
    assert_eq!(read_etag(&list), None);
    assert_eq!(read_etag(&Json::Other), None);
}

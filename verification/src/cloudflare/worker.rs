//! Creating the worker, unless the one that is there is the same.
use crate::common::utils::{join_path, own_dir};
use crate::text::{cat2, cat3, cat4, same, trim};
use vstd::prelude::*;

verus! {

/// Name of the worker.
pub const SCRIPT_NAME: &'static str = "gmf";

/// The address of the list of workers.
pub open spec fn list_address(account_id: Seq<char>) -> Seq<char> {
    "https://api.cloudflare.com/client/v4/accounts/"@ + account_id + "/workers/scripts"@
}

/// The address of the worker.
pub open spec fn worker_address(account_id: Seq<char>) -> Seq<char> {
    list_address(account_id) + "/"@ + SCRIPT_NAME@
}

/// Finds the address of the list of workers.
pub fn list_url(account_id: &str) -> (r: String)
    ensures
        r@ == list_address(account_id@),
{
    cat3(
        "https://api.cloudflare.com/client/v4/accounts/",
        account_id,
        "/workers/scripts",
    )
}

/// Finds the address of the worker.
pub fn put_url(account_id: &str) -> (r: String)
    ensures
        r@ == worker_address(account_id@),
{
    cat3(list_url(account_id).as_str(), "/", SCRIPT_NAME)
}

/// Finds the address of the setting that puts the worker on the net.
pub fn subdomain_url(account_id: &str) -> (r: String)
    ensures
        r@ == worker_address(account_id@) + "/subdomain"@,
{
    cat2(put_url(account_id).as_str(), "/subdomain")
}

/// The header that shows who asks.
pub fn bearer(api_token: &str) -> (r: String)
    ensures
        r@ == "Bearer "@ + api_token@,
{
    cat2("Bearer ", api_token)
}

/// The name of the worker's main file.
pub fn main_part_name() -> (r: String)
    ensures
        r@ == SCRIPT_NAME@ + ".mjs"@,
{
    cat2(SCRIPT_NAME, ".mjs")
}

/// The file that notes the tag of the last upload: in the program's directory for what
/// can be made again, with `.cache` at home.
pub fn etag_path(cache_dir: &Option<String>, home_dir: &Option<String>) -> (r: String)
    requires
        cache_dir is Some || home_dir is Some,
    ensures
        cache_dir is Some ==> r@ == crate::common::utils::joined(
            crate::common::utils::own_dir_path(Some(cache_dir->0@), Seq::empty(), ".cache"@),
            "worker_etag"@,
        ),
        cache_dir is None ==> r@ == crate::common::utils::joined(
            crate::common::utils::own_dir_path(None, home_dir->0@, ".cache"@),
            "worker_etag"@,
        ),
{
    join_path(own_dir(cache_dir, home_dir, ".cache").as_str(), "worker_etag")
}

/// One worker in the list.
#[derive(Debug)]
pub struct WorkerEntry {
    pub id: Option<String>,
    pub etag: Option<String>,
}

/// The entry is that of our worker.
pub open spec fn is_ours(entry: WorkerEntry) -> bool {
    entry.id matches Some(id) && id@ == SCRIPT_NAME@
}

/// The tag of the first worker in the list that is ours.
pub open spec fn our_etag(workers: Seq<WorkerEntry>) -> Option<Seq<char>>
    decreases workers.len(),
{
    if workers.len() == 0 {
        None
    } else if is_ours(workers[0]) {
        match workers[0].etag {
            Some(e) => Some(e@),
            None => None,
        }
    } else {
        our_etag(workers.drop_first())
    }
}

/// Finds the tag of our worker in the list.
pub fn find_etag(workers: &Vec<WorkerEntry>) -> (r: Option<String>)
    ensures
        match r {
            Some(e) => our_etag(workers@) == Some(e@),
            None => our_etag(workers@) is None,
        },
{
    assert(workers@.skip(0) == workers@);
    for i in 0..workers.len()
        invariant
            our_etag(workers@) == our_etag(workers@.skip(i as int)),
    {
        assert(workers@.skip(i as int)[0] == workers@[i as int]);
        assert(workers@.skip(i as int).drop_first() == workers@.skip(i + 1));
        match &workers[i].id {
            Some(id) => {
                if same(id.as_str(), SCRIPT_NAME) {
                    return match &workers[i].etag {
                        Some(e) => Some(e.clone()),
                        None => None,
                    };
                }
            },
            None => {},
        }
    }
    None
}

/// What to do about the worker.
#[derive(Debug)]
pub enum Decision {
    /// It is the same: say so, and leave it.
    Skip(String),
    /// Upload it; first say this, if anything.
    Upload(Option<String>),
}

/// `r` is what to do when `local` was noted of the last upload and the worker that is
/// there has the tag `remote`.
pub open spec fn is_decision(
    r: Decision,
    local: Option<Seq<char>>,
    remote: Option<Seq<char>>,
) -> bool {
    match (local, remote) {
        (Some(l), Some(t)) => if crate::text::trimmed(l) == crate::text::trimmed(t) {
            r matches Decision::Skip(words) && words@
                == "✅ Worker 'gmf' 已是最新版本（ETag="@ + t + "），跳过上传。"@
        } else {
            r matches Decision::Upload(Some(words)) && words@
                == "⚙️ Worker 'gmf' 存在但版本不同，准备更新。"@
        },
        (_, None) => r matches Decision::Upload(Some(words)) && words@
            == "ℹ️ Worker 'gmf' 不存在，将创建新版本。"@,
        (None, Some(_)) => r == Decision::Upload(None),
    }
}

/// The text of a string that may be missing.
pub open spec fn text_of(s: Option<String>) -> Option<Seq<char>> {
    match s {
        Some(t) => Some(t@),
        None => None,
    }
}

/// Decides what to do about the worker, from what was noted of the last upload and the
/// list of the workers that are there.
pub fn create_worker(local: &Option<String>, workers: &Vec<WorkerEntry>) -> (r: Decision)
    ensures
        is_decision(r, text_of(*local), our_etag(workers@)),
{
    let remote = find_etag(workers);
    match remote {
        None => Decision::Upload(
            Some("ℹ️ Worker 'gmf' 不存在，将创建新版本。".to_owned()),
        ),
        Some(t) => match local {
            None => Decision::Upload(None),
            Some(l) => {
                if same(trim(l.as_str()).as_str(), trim(t.as_str()).as_str()) {
                    Decision::Skip(
                        cat3(
                            "✅ Worker 'gmf' 已是最新版本（ETag=",
                            t.as_str(),
                            "），跳过上传。",
                        ),
                    )
                } else {
                    Decision::Upload(
                        Some("⚙️ Worker 'gmf' 存在但版本不同，准备更新。".to_owned()),
                    )
                }
            },
        },
    }
}

/// Judges the answer to the question for the list; `status` is its status for people.
pub fn list_outcome(success: bool, status: &str) -> (r: Result<(), String>)
    ensures
        r is Ok <==> success,
        r matches Err(e) ==> e@ == "❌ List workers 失败：状态 "@ + status@,
{
    if success {
        Ok(())
    } else {
        Err(cat2("❌ List workers 失败：状态 ", status))
    }
}

/// Judges the answer to the upload: what to say.
pub fn upload_outcome(success: bool, status: &str, text: &str) -> (r: Result<String, String>)
    ensures
        r is Ok <==> success,
        r matches Ok(words) ==> words@ == "✅ 上传成功："@ + text@,
        r matches Err(e) ==> e@ == "❌ 上传失败：状态 "@ + status@ + "，响应："@ + text@,
{
    if success {
        Ok(cat2("✅ 上传成功：", text))
    } else {
        Err(cat4("❌ 上传失败：状态 ", status, "，响应：", text))
    }
}

/// What to say when the tag of the upload was noted.
pub fn etag_noted(etag: &str) -> (r: String)
    ensures
        r@ == "📦 已更新本地缓存 ETag="@ + etag@,
{
    cat2("📦 已更新本地缓存 ETag=", etag)
}

/// Judges the answer to the setting that puts the worker on the net: what to say.
pub fn enable_workers_dev(success: bool, status: &str, text: &str) -> (r: Result<String, String>)
    ensures
        r is Ok <==> success,
        r matches Ok(words) ==> words@ == "✅ workers.dev 域名启用成功："@ + text@,
        r matches Err(e) ==> e@ == "❌ 启用 workers.dev 失败：状态 "@ + status@ + "，响应："@
            + text@,
{
    if success {
        Ok(cat2("✅ workers.dev 域名启用成功：", text))
    } else {
        Err(cat4("❌ 启用 workers.dev 失败：状态 ", status, "，响应：", text))
    }
}

/// After an upload whose tag was noted, the same worker is not uploaded again.
pub proof fn law_noted_worker_is_kept(r: Decision, etag: Seq<char>)
    requires
        is_decision(r, Some(etag), Some(etag)),
    ensures
        r is Skip,
{
}

proof fn lemma_our_etag_behind(before: Seq<WorkerEntry>, rest: Seq<WorkerEntry>)
    requires
        forall|i: int| 0 <= i < before.len() ==> !is_ours(#[trigger] before[i]),
    ensures
        our_etag(before + rest) == our_etag(rest),
    decreases before.len(),
{
    if before.len() == 0 {
        assert(before + rest =~= rest);
    } else {
        let d = before.drop_first();
        assert forall|i: int| 0 <= i < d.len() implies !is_ours(#[trigger] d[i]) by {
            assert(d[i] == before[i + 1]);
        }
        lemma_our_etag_behind(d, rest);
        assert((before + rest)[0] == before[0]);
        assert(!is_ours(before[0]));
        assert((before + rest).drop_first() =~= d + rest);
    }
}

/// Our worker is found wherever it stands in the list, by its name: its tag is that of the
/// first with that name, and a list without it has none.
pub proof fn law_our_worker_is_found(
    before: Seq<WorkerEntry>,
    ours: WorkerEntry,
    rest: Seq<WorkerEntry>,
)
    requires
        forall|i: int|
            0 <= i < before.len() ==> (#[trigger] before[i]).id is None || before[i].id->0@
                != "gmf"@,
        ours.id is Some,
        ours.id->0@ == "gmf"@,
    ensures
        our_etag(before + seq![ours] + rest) == text_of(ours.etag),
        our_etag(before) is None,
{
    let tail = seq![ours] + rest;
    assert forall|i: int| 0 <= i < before.len() implies !is_ours(#[trigger] before[i]) by {}
    assert(before + seq![ours] + rest =~= before + tail);
    lemma_our_etag_behind(before, tail);
    assert(tail[0] == ours);
    lemma_our_etag_behind(before, Seq::empty());
    assert(before + Seq::<WorkerEntry>::empty() =~= before);
}

/// The worker is left alone only when the tag that was noted is that of the worker that is
/// there, but for white space around it; then that tag is told. In every other case it is
/// uploaded.
pub proof fn law_only_the_same_worker_is_kept(
    r: Decision,
    local: Option<Seq<char>>,
    remote: Option<Seq<char>>,
)
    requires
        is_decision(r, local, remote),
    ensures
        r is Skip <==> local is Some && remote is Some && crate::text::trimmed(local->0)
            == crate::text::trimmed(remote->0),
        r matches Decision::Skip(words) ==> crate::text::occurs(words@, remote->0),
        local is None || remote is None ==> r is Upload,
{
    if let Decision::Skip(words) = r {
        crate::text::law_part_occurs(
            "✅ Worker 'gmf' 已是最新版本（ETag="@,
            remote->0,
            "），跳过上传。"@,
        );
    }
}

/// The worker is looked for where it is uploaded to: the list is that of the account, the
/// worker stands in it under its name, and both ways to name its place mean the same.
pub proof fn law_worker_is_where_it_is_uploaded(
    client: crate::cloudflare::cf::CloudflareClient,
    account_id: Seq<char>,
)
    requires
        client.base@ == "https://api.cloudflare.com/client/v4"@,
        client.script_name@ == "gmf"@,
        client.account_id@ == account_id,
    ensures
        worker_address(account_id) == client.address(
            "/accounts/"@ + client.account_id@ + "/workers/scripts/"@ + client.script_name@,
        ),
        worker_address(account_id) == list_address(account_id) + "/"@ + "gmf"@,
        list_address(account_id) == client.address(
            "/accounts/"@ + client.account_id@ + "/workers/scripts"@,
        ),
        SCRIPT_NAME@ == "gmf"@,
{
    reveal_strlit("https://api.cloudflare.com/client/v4");
    reveal_strlit("https://api.cloudflare.com/client/v4/accounts/");
    reveal_strlit("/accounts/");
    reveal_strlit("/workers/scripts/");
    reveal_strlit("/workers/scripts");
    reveal_strlit("/");
    let a = "/accounts/"@ + account_id + "/workers/scripts/"@ + "gmf"@;
    let b = "/accounts/"@ + account_id + "/workers/scripts"@;
    assert(a.drop_first()[0] == 'a');
    assert(b.drop_first()[0] == 'a');
    assert(crate::text::stripped_start(a.drop_first(), '/') == a.drop_first());
    assert(crate::text::stripped_start(b.drop_first(), '/') == b.drop_first());
    assert(crate::text::stripped_start(a, '/') == a.drop_first());
    assert(crate::text::stripped_start(b, '/') == b.drop_first());
    assert(worker_address(account_id) =~= client.address(a));
    assert(list_address(account_id) =~= client.address(b));
}

/// A text that may be missing is missing just when there is none.
pub proof fn law_text_is_there_when_it_is(s: Option<String>)
    ensures
        s is Some ==> text_of(s) == Some(s->0@),
        s is None ==> text_of(s) is None,
{
}

}

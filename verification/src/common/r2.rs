//! The bucket that the chunks pass through: finding it, and judging its answers.
use crate::number::decimal_of;
use crate::text::{cat4, cat5};
use vstd::prelude::*;

verus! {

/// Name of the bucket.
pub const BUCKET_NAME: &'static str = "gmf";

/// How often the remote side looks for the bucket.
pub const MAX_RETRIES: u32 = 5;

/// How long it waits after each time, in milliseconds.
pub const RETRY_DELAY_MS: u64 = 500;

/// Where the bucket is, and the key to it.
#[derive(Debug)]
pub struct R2Config {
    pub endpoint: String,
    pub access_key_id: String,
    pub secret_access_key: String,
}

impl Default for R2Config {
    fn default() -> (r: R2Config)
        ensures
            r.endpoint@.len() == 0,
            r.access_key_id@.len() == 0,
            r.secret_access_key@.len() == 0,
    {
        R2Config {
            endpoint: String::new(),
            access_key_id: String::new(),
            secret_access_key: String::new(),
        }
    }
}

/// The configuration from the environment, where all of it is set; otherwise what is
/// missing, the first of it.
pub fn config_from_env(
    endpoint: Option<String>,
    access_key_id: Option<String>,
    secret_access_key: Option<String>,
) -> (r: Result<R2Config, String>)
    ensures
        r is Ok <==> endpoint is Some && access_key_id is Some && secret_access_key is Some,
        r matches Ok(c) ==> c.endpoint == endpoint->0 && c.access_key_id == access_key_id->0
            && c.secret_access_key == secret_access_key->0,
        r matches Err(e) ==> e@ == if endpoint is None {
            "环境变量 'ENDPOINT' 未设置"@
        } else if access_key_id is None {
            "环境变量 'ACCESS_KEY_ID' 未设置"@
        } else {
            "环境变量 'SECRET_ACCESS_KEY' 未设置"@
        },
{
    match endpoint {
        None => Err("环境变量 'ENDPOINT' 未设置".to_owned()),
        Some(endpoint) => match access_key_id {
            None => Err("环境变量 'ACCESS_KEY_ID' 未设置".to_owned()),
            Some(access_key_id) => match secret_access_key {
                None => Err("环境变量 'SECRET_ACCESS_KEY' 未设置".to_owned()),
                Some(secret_access_key) => Ok(
                    R2Config { endpoint, access_key_id, secret_access_key },
                ),
            },
        },
    }
}

/// Where the search for the bucket stands.
#[derive(Debug, Clone, Copy, PartialEq, Eq, Structural)]
pub enum InitState {
    /// The remote side looks for the bucket that the client made; `tries` times it was
    /// not there.
    Looking { tries: u32 },
    /// The client looks whether the bucket is there already.
    Checking,
    /// The client makes the bucket.
    Creating,
    /// The bucket is found.
    Found,
    /// There is no bucket.
    Failed,
}

/// What happened in the search.
#[derive(Debug)]
pub enum InitEvent {
    /// The bucket is there, or not.
    Exists(bool),
    /// The answer to the making of the bucket.
    Created { success: bool, response_code: u16, response_text: String },
}

/// What to do next.
#[derive(Debug)]
pub enum InitAction {
    /// Look whether the bucket is there.
    Check,
    /// Wait some milliseconds, then look again.
    WaitAndCheck(u64),
    /// Make the bucket.
    Create,
    /// Remember the bucket.
    Store,
    /// Wait some milliseconds, then fail with these words.
    WaitAndFail(u64, String),
    /// Fail with these words.
    Fail(String),
}

/// The words for a bucket that the client never made.
pub open spec fn not_found_text() -> Seq<char> {
    "R2 bucket '"@ + BUCKET_NAME@ + "' 在默认配置下未检测到存在（尝试 "@
        + crate::number::decimal(MAX_RETRIES as nat) + " 次）"@
}

/// The words for a bucket that could not be made.
pub open spec fn not_created_text(response_code: u16, response_text: Seq<char>) -> Seq<char> {
    "创建 R2 bucket 失败: HTTP "@ + crate::number::decimal(response_code as nat)
        + ", 响应内容："@ + response_text
}

/// Begins the search: the client gives a configuration and may make the bucket, the
/// remote side takes it from the environment and waits for it.
pub fn init(use_override: bool) -> (r: (InitState, InitAction))
    ensures
        r.1 is Check,
        r.0 == if use_override {
            InitState::Checking
        } else {
            InitState::Looking { tries: 0 }
        },
{
    if use_override {
        (InitState::Checking, InitAction::Check)
    } else {
        (InitState::Looking { tries: 0 }, InitAction::Check)
    }
}

/// The event can happen in the state.
pub open spec fn init_expects(state: InitState, event: InitEvent) -> bool {
    match state {
        InitState::Looking { tries } => tries < MAX_RETRIES && event is Exists,
        InitState::Checking => event is Exists,
        InitState::Creating => event is Created,
        _ => false,
    }
}

/// The next state and action are those that follow.
pub open spec fn is_init_step(state: InitState, event: InitEvent, r: (InitState, InitAction)) -> bool {
    match state {
        InitState::Looking { tries } => if event->Exists_0 {
            r.0 is Found && r.1 is Store
        } else if tries + 1 < MAX_RETRIES {
            r.0 == (InitState::Looking { tries: (tries + 1) as u32 }) && r.1
                == InitAction::WaitAndCheck(RETRY_DELAY_MS)
        } else {
            r.0 is Failed && (r.1 matches InitAction::WaitAndFail(ms, e) && ms == RETRY_DELAY_MS
                && e@ == not_found_text())
        },
        InitState::Checking => if event->Exists_0 {
            r.0 is Found && r.1 is Store
        } else {
            r.0 is Creating && r.1 is Create
        },
        _ => match event {
            InitEvent::Created { success, response_code, response_text } => if success {
                r.0 is Found && r.1 is Store
            } else {
                r.0 is Failed && (r.1 matches InitAction::Fail(e) && e@ == not_created_text(
                    response_code,
                    response_text@,
                ))
            },
            _ => true,
        },
    }
}

/// Goes on with the search.
pub fn init_step(state: InitState, event: InitEvent) -> (r: (InitState, InitAction))
    requires
        init_expects(state, event),
    ensures
        is_init_step(state, event, r),
{
    match event {
        InitEvent::Exists(true) => (InitState::Found, InitAction::Store),
        InitEvent::Exists(false) => match state {
            InitState::Looking { tries } => if tries + 1 < MAX_RETRIES {
                (
                    InitState::Looking { tries: tries + 1 },
                    InitAction::WaitAndCheck(RETRY_DELAY_MS),
                )
            } else {
                let words = cat5(
                    "R2 bucket '",
                    BUCKET_NAME,
                    "' 在默认配置下未检测到存在（尝试 ",
                    decimal_of(MAX_RETRIES as u64).as_str(),
                    " 次）",
                );
                (InitState::Failed, InitAction::WaitAndFail(RETRY_DELAY_MS, words))
            },
            _ => (InitState::Creating, InitAction::Create),
        },
        InitEvent::Created { success, response_code, response_text } => if success {
            (InitState::Found, InitAction::Store)
        } else {
            let words = cat4(
                "创建 R2 bucket 失败: HTTP ",
                decimal_of(response_code as u64).as_str(),
                ", 响应内容：",
                response_text.as_str(),
            );
            (InitState::Failed, InitAction::Fail(words))
        },
    }
}

/// How many answers the search takes at most from a state on.
pub open spec fn init_steps_left(state: InitState) -> nat {
    match state {
        InitState::Looking { tries } => if tries < MAX_RETRIES {
            (MAX_RETRIES - tries) as nat
        } else {
            0
        },
        InitState::Checking => 2,
        InitState::Creating => 1,
        _ => 0,
    }
}

/// The search ends: every answer leaves fewer to come.
pub proof fn law_init_ends(state: InitState, event: InitEvent, r: (InitState, InitAction))
    requires
        init_expects(state, event),
        is_init_step(state, event, r),
    ensures
        init_steps_left(r.0) < init_steps_left(state),
        r.1 is Store <==> r.0 is Found,
{
}

/// Remembers the bucket. It can be set only once.
pub fn store_bucket(stored: &mut bool) -> (r: Result<(), String>)
    ensures
        *final(stored),
        r is Ok <==> !*old(stored),
        r matches Err(e) ==> e@ == "R2 Bucket 已初始化，不可重复初始化"@,
{
    if *stored {
        Err("R2 Bucket 已初始化，不可重复初始化".to_owned())
    } else {
        *stored = true;
        Ok(())
    }
}

/// Whether there is a bucket to work with.
pub fn get_bucket(stored: bool) -> (r: Result<(), String>)
    ensures
        r is Ok <==> stored,
        r matches Err(e) ==> e@ == "R2 Bucket 尚未初始化，请先调用 init()"@,
{
    if stored {
        Ok(())
    } else {
        Err("R2 Bucket 尚未初始化，请先调用 init()".to_owned())
    }
}

/// The keys on all pages, page after page.
pub open spec fn all_keys(pages: Seq<Vec<String>>) -> Seq<String>
    decreases pages.len(),
{
    if pages.len() == 0 {
        Seq::empty()
    } else {
        all_keys(pages.drop_last()) + pages.last()@
    }
}

/// Puts the keys of a listing's pages together.
pub fn list_objects(pages: Vec<Vec<String>>) -> (r: Vec<String>)
    ensures
        crate::text::views(r@) == crate::text::views(all_keys(pages@)),
{
    let mut keys: Vec<String> = Vec::new();
    for i in 0..pages.len()
        invariant
            crate::text::views(keys@) == crate::text::views(all_keys(pages@.take(i as int))),
    {
        let ghost before = crate::text::views(keys@);
        let page = &pages[i];
        let ghost head = all_keys(pages@.take(i as int));
        for j in 0..page.len()
            invariant
                crate::text::views(keys@) == before + crate::text::views(page@).take(j as int),
        {
            let ghost last = crate::text::views(keys@);
            keys.push(page[j].clone());
            assert(crate::text::views(keys@) =~= last.push(page@[j as int]@));
            assert(crate::text::views(page@).take(j + 1) =~= crate::text::views(page@).take(
                j as int,
            ).push(page@[j as int]@));
        }
        proof {
            assert(crate::text::views(page@).take(page@.len() as int) == crate::text::views(page@));
            assert(pages@.take(i + 1).drop_last() == pages@.take(i as int));
            assert(crate::text::views(head + page@) =~= crate::text::views(head)
                + crate::text::views(page@));
        }
    }
    assert(pages@.take(pages@.len() as int) == pages@);
    keys
}

/// The words for an object that was not deleted.
pub open spec fn delete_failed_text(key: Seq<char>, code: u16) -> Seq<char> {
    "删除对象失败, key="@ + key + ", 状态码="@ + crate::number::decimal(code as nat)
}

/// Judges the answer to the deletion of an object.
pub fn delete_object(key: &str, code: u16) -> (r: Result<(), String>)
    ensures
        r is Ok <==> code == 204,
        r matches Err(e) ==> e@ == delete_failed_text(key@, code),
{
    if code != 204 {
        Err(cat4("删除对象失败, key=", key, ", 状态码=", decimal_of(code as u64).as_str()))
    } else {
        Ok(())
    }
}

/// Where the deletion of the bucket stands: the first `deleted` of its objects are gone.
#[derive(Debug)]
pub struct Emptying {
    keys: Vec<String>,
    deleted: usize,
}

impl Emptying {
    /// The objects that the bucket held at first.
    pub closed spec fn listed(self) -> Seq<String> {
        self.keys@
    }

    /// How many of them are gone.
    pub closed spec fn gone(self) -> nat {
        self.deleted as nat
    }

    pub open spec fn wf(self) -> bool {
        self.gone() <= self.listed().len()
    }

    /// Starts with the objects that the bucket holds.
    pub fn new(keys: Vec<String>) -> (r: Emptying)
        ensures
            r.wf(),
            r.listed() == keys@,
            r.gone() == 0,
    {
        Emptying { keys, deleted: 0 }
    }

    /// The object to delete next; when there is none, the bucket itself can go.
    pub fn next(&self) -> (r: Option<String>)
        requires
            self.wf(),
        ensures
            r is Some <==> self.gone() < self.listed().len(),
            r matches Some(key) ==> key@ == self.listed()[self.gone() as int]@,
    {
        if self.deleted < self.keys.len() {
            Some(self.keys[self.deleted].clone())
        } else {
            None
        }
    }

    /// Takes the answer to the deletion of the next object. The first object that was
    /// not deleted ends everything.
    pub fn answered(&mut self, code: u16) -> (r: Result<(), String>)
        requires
            old(self).wf(),
            old(self).gone() < old(self).listed().len(),
        ensures
            final(self).wf(),
            final(self).listed() == old(self).listed(),
            r is Ok <==> code == 204,
            r is Ok ==> final(self).gone() == old(self).gone() + 1,
            r matches Err(e) ==> final(self).gone() == old(self).gone() && e@
                == delete_failed_text(old(self).listed()[old(self).gone() as int]@, code),
    {
        match delete_object(self.keys[self.deleted].as_str(), code) {
            Ok(_) => {
                let len: usize = self.keys.len();
                assert(self.deleted < len);
                self.deleted = self.deleted + 1;
                Ok(())
            },
            Err(e) => Err(e),
        }
    }
}

/// The words for an object that could not be fetched.
pub open spec fn get_failed_text(key: Seq<char>, code: u16) -> Seq<char> {
    "Failed to download object, key="@ + key + ", status_code="@ + crate::number::decimal(
        code as nat,
    )
}

/// Judges the answer to the fetching of an object.
pub fn get_object(key: &str, code: u16, body: Vec<u8>) -> (r: Result<Vec<u8>, String>)
    ensures
        r is Ok <==> code == 200,
        r matches Ok(data) ==> data == body,
        r matches Err(e) ==> e@ == get_failed_text(key@, code),
{
    if code != 200 {
        Err(
            cat4(
                "Failed to download object, key=",
                key,
                ", status_code=",
                decimal_of(code as u64).as_str(),
            ),
        )
    } else {
        Ok(body)
    }
}

/// The words for an object that could not be stored.
pub open spec fn put_failed_text(key: Seq<char>, code: u16) -> Seq<char> {
    "Failed to upload object, key="@ + key + ", status_code="@ + crate::number::decimal(
        code as nat,
    )
}

/// Judges the answer to the storing of an object.
pub fn put_object(key: &str, code: u16) -> (r: Result<(), String>)
    ensures
        r is Ok <==> code == 200,
        r matches Err(e) ==> e@ == put_failed_text(key@, code),
{
    if code != 200 {
        Err(
            cat4(
                "Failed to upload object, key=",
                key,
                ", status_code=",
                decimal_of(code as u64).as_str(),
            ),
        )
    } else {
        Ok(())
    }
}

/// A bucket that is there is taken, by the client and by the remote side, whatever went
/// before; and so is one that the client could make.
pub proof fn law_bucket_that_is_there_is_taken(
    state: InitState,
    event: InitEvent,
    r: (InitState, InitAction),
)
    requires
        init_expects(state, event),
        is_init_step(state, event, r),
    ensures
        event == InitEvent::Exists(true) ==> r.0 is Found && r.1 is Store,
        (event matches InitEvent::Created { success, .. } && success) ==> r.0 is Found
            && r.1 is Store,
        r.1 is Store ==> event == InitEvent::Exists(true) || (event matches InitEvent::Created {
            success,
            ..
        } && success),
{
}

/// A bucket that is missing is made by the client, once; the remote side waits for it half a
/// second at a time, and gives up only when it was not there five times.
pub proof fn law_missing_bucket_is_made_or_waited_for(
    state: InitState,
    r: (InitState, InitAction),
)
    requires
        init_expects(state, InitEvent::Exists(false)),
        is_init_step(state, InitEvent::Exists(false), r),
    ensures
        state is Checking ==> r.0 is Creating && r.1 is Create,
        state matches InitState::Looking { tries } ==> {
            &&& tries < 4 ==> r.0 == (InitState::Looking { tries: (tries + 1) as u32 }) && r.1
                == InitAction::WaitAndCheck(500)
            &&& tries == 4 ==> r.0 is Failed && (r.1 matches InitAction::WaitAndFail(ms, _) && ms
                == 500)
            &&& tries <= 4
        },
{
}

/// A bucket that could not be made ends the search, in words that hold the code of the
/// answer and end with its text.
pub proof fn law_refused_bucket_is_told(
    state: InitState,
    response_code: u16,
    response_text: String,
    r: (InitState, InitAction),
)
    requires
        state is Creating,
        is_init_step(
            state,
            InitEvent::Created { success: false, response_code, response_text },
            r,
        ),
    ensures
        r.0 is Failed,
        r.1 matches InitAction::Fail(words) && crate::text::occurs(
            words@,
            crate::number::decimal(response_code as nat),
        ) && words@.len() >= response_text@.len() && words@.skip(
            words@.len() - response_text@.len(),
        ) == response_text@,
{
    let words = r.1->Fail_0@;
    let a = "创建 R2 bucket 失败: HTTP "@;
    let b = crate::number::decimal(response_code as nat);
    let c = ", 响应内容："@ + response_text@;
    assert(words =~= a + b + c);
    crate::text::law_part_occurs(a, b, c);
    assert(words.skip(words.len() - response_text@.len()) =~= response_text@);
}

/// The chunks pass through one bucket: all sides mean the same.
pub proof fn law_one_bucket_for_all()
    ensures
        BUCKET_NAME@ == "gmf"@,
        crate::client::r2::BUCKET_NAME@ == BUCKET_NAME@,
        crate::remote::r2::BUCKET_NAME@ == BUCKET_NAME@,
{
}

/// No key of a listing is lost or moved: the keys of the pages stand one page behind the
/// other, each page as it came.
pub proof fn law_listing_keeps_every_key(
    a: Seq<Vec<String>>,
    b: Seq<Vec<String>>,
    page: Vec<String>,
)
    ensures
        all_keys(a + b) == all_keys(a) + all_keys(b),
        all_keys(seq![page]) == page@,
    decreases b.len(),
{
    assert(seq![page].drop_last() =~= Seq::<Vec<String>>::empty());
    assert(all_keys(seq![page].drop_last()) + page@ =~= page@);
    if b.len() == 0 {
        assert(a + b =~= a);
        assert(all_keys(a) + all_keys(b) =~= all_keys(a));
    } else {
        law_listing_keeps_every_key(a, b.drop_last(), page);
        assert((a + b).drop_last() =~= a + b.drop_last());
        assert(all_keys(a) + (all_keys(b.drop_last()) + b.last()@) =~= (all_keys(a) + all_keys(
            b.drop_last(),
        )) + b.last()@);
    }
}

/// The words about an object that could not be fetched, stored or deleted name it, and end
/// with the code of the answer.
pub proof fn law_failed_object_is_named(key: Seq<char>, code: u16)
    ensures
        crate::text::occurs(delete_failed_text(key, code), "="@ + key + ", "@),
        crate::text::occurs(get_failed_text(key, code), "="@ + key + ", "@),
        crate::text::occurs(put_failed_text(key, code), "="@ + key + ", "@),
        ({
            let d = crate::number::decimal(code as nat);
            let w = delete_failed_text(key, code);
            w.skip(w.len() - d.len()) == d
        }),
        ({
            let d = crate::number::decimal(code as nat);
            let w = get_failed_text(key, code);
            w.skip(w.len() - d.len()) == d
        }),
        ({
            let d = crate::number::decimal(code as nat);
            let w = put_failed_text(key, code);
            w.skip(w.len() - d.len()) == d
        }),
{
    reveal_strlit("=");
    reveal_strlit(", ");
    reveal_strlit("删除对象失败, key=");
    reveal_strlit(", 状态码=");
    reveal_strlit("Failed to download object, key=");
    reveal_strlit("Failed to upload object, key=");
    reveal_strlit(", status_code=");
    let d = crate::number::decimal(code as nat);
    let n = "="@ + key + ", "@;
    let w = delete_failed_text(key, code);
    let k = "删除对象失败, key="@.len() - 1;
    assert(w.subrange(k, k + n.len()) =~= n);
    assert(crate::text::occurs_at(w, n, k));
    assert(w.skip(w.len() - d.len()) =~= d);
    let w = get_failed_text(key, code);
    let k = "Failed to download object, key="@.len() - 1;
    assert(w.subrange(k, k + n.len()) =~= n);
    assert(crate::text::occurs_at(w, n, k));
    assert(w.skip(w.len() - d.len()) =~= d);
    let w = put_failed_text(key, code);
    let k = "Failed to upload object, key="@.len() - 1;
    assert(w.subrange(k, k + n.len()) =~= n);
    assert(crate::text::occurs_at(w, n, k));
    assert(w.skip(w.len() - d.len()) =~= d);
}

/// The remote side gives up in words that name the bucket and say that it looked five times.
pub proof fn law_missing_bucket_is_named(state: InitState, r: (InitState, InitAction))
    requires
        state is Looking,
        init_expects(state, InitEvent::Exists(false)),
        is_init_step(state, InitEvent::Exists(false), r),
        r.0 is Failed,
    ensures
        r.1 matches InitAction::WaitAndFail(_, words) && crate::text::occurs(
            words@,
            BUCKET_NAME@,
        ) && crate::text::occurs(words@, crate::number::decimal(5)),
{
    let words = r.1->WaitAndFail_1@;
    let head = "R2 bucket '"@;
    let mid = "' 在默认配置下未检测到存在（尝试 "@;
    let five = crate::number::decimal(5);
    let end = " 次）"@;
    assert(words =~= head + BUCKET_NAME@ + (mid + five + end));
    crate::text::law_part_occurs(head, BUCKET_NAME@, mid + five + end);
    assert(words =~= (head + BUCKET_NAME@ + mid) + five + end);
    crate::text::law_part_occurs(head + BUCKET_NAME@ + mid, five, end);
}

}

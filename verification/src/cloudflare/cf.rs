//! Requests to the API: where they go, and when they are repeated.
use crate::cloudflare::config::AppConfig;
use crate::common::utils::{join_path, own_dir};
use crate::number::parse_unsigned;
use crate::outside::encoding::parse_http_date;
use crate::text::{cat2, cat3, cat4, same, strip_start, trim};
use vstd::prelude::*;

verus! {

/// The API, and the account it is used for.
#[derive(Debug)]
pub struct CloudflareClient {
    pub base: String,
    pub script_name: String,
    pub account_id: String,
    pub token: String,
    pub subdomain: String,
}

impl CloudflareClient {
    /// The API for an account.
    pub fn new(cfg: &AppConfig) -> (r: CloudflareClient)
        ensures
            r.base@ == "https://api.cloudflare.com/client/v4"@,
            r.script_name@ == "gmf"@,
            r.account_id@ == cfg.account_id@,
            r.token@ == cfg.api_token@,
            r.subdomain@ == cfg.subdomain@,
    {
        CloudflareClient {
            base: "https://api.cloudflare.com/client/v4".to_owned(),
            script_name: "gmf".to_owned(),
            account_id: cfg.account_id.clone(),
            token: cfg.api_token.clone(),
            subdomain: cfg.subdomain.clone(),
        }
    }

    /// The header that shows who asks.
    pub fn auth_header(&self) -> (r: String)
        ensures
            r@ == "Bearer "@ + self.token@,
    {
        cat2("Bearer ", self.token.as_str())
    }

    /// Where a path of the API is: below its base, whether or not the path starts with a
    /// slash.
    pub open spec fn address(self, path: Seq<char>) -> Seq<char> {
        self.base@ + "/"@ + crate::text::stripped_start(path, '/')
    }

    /// Finds where a path of the API is.
    pub fn url(&self, path: &str) -> (r: String)
        ensures
            r@ == self.address(path@),
    {
        cat3(self.base.as_str(), "/", strip_start(path, '/').as_str())
    }

    /// Where the worker is uploaded to.
    pub fn upload_url(&self) -> (r: String)
        ensures
            r@ == self.address(
                "/accounts/"@ + self.account_id@ + "/workers/scripts/"@ + self.script_name@,
            ),
    {
        let path = cat4(
            "/accounts/",
            self.account_id.as_str(),
            "/workers/scripts/",
            self.script_name.as_str(),
        );
        self.url(path.as_str())
    }

    /// Where the key to the account is tested.
    pub fn verify_url(&self) -> (r: String)
        ensures
            r@ == self.address("/user/tokens/verify"@),
    {
        self.url("/user/tokens/verify")
    }

    /// The name of the worker's main file.
    pub fn main_part_name(&self) -> (r: String)
        ensures
            r@ == self.script_name@ + ".mjs"@,
    {
        cat2(self.script_name.as_str(), ".mjs")
    }
}

/// The file that notes which version of the worker was uploaded: in the program's
/// directory for what can be made again, with `.cache` at home.
pub fn version_path(cache_dir: &Option<String>, home_dir: &Option<String>) -> (r: String)
    requires
        cache_dir is Some || home_dir is Some,
    ensures
        cache_dir is Some ==> r@ == crate::common::utils::joined(
            crate::common::utils::own_dir_path(Some(cache_dir->0@), Seq::empty(), ".cache"@),
            "install_version"@,
        ),
        cache_dir is None ==> r@ == crate::common::utils::joined(
            crate::common::utils::own_dir_path(None, home_dir->0@, ".cache"@),
            "install_version"@,
        ),
{
    join_path(own_dir(cache_dir, home_dir, ".cache").as_str(), "install_version")
}

/// How often a request is repeated, at most.
pub const MAX_RETRIES: usize = 3;

/// How long the first pause is, in nanoseconds: three hundred milliseconds.
pub const FIRST_BACKOFF_NS: u128 = 300_000_000;

/// How often a request was tried without success, and how long the next pause is.
#[derive(Debug, Clone, Copy, PartialEq, Eq, Structural)]
pub struct Retry {
    attempt: usize,
    backoff_ns: u128,
}

/// What came of a request.
#[derive(Debug)]
pub enum Sent {
    /// An answer: its status, what it says about when to ask again, and the time in
    /// nanoseconds since 1970.
    Answered { status: u16, retry_after: Option<String>, now_ns: u128 },
    /// No answer, for this reason.
    Failed(String),
}

/// What to do with it.
#[derive(Debug)]
pub enum Reaction {
    /// The answer is good.
    Accept,
    /// Pause this many nanoseconds, then ask again.
    PauseAndRetry(u128),
    /// The answer is bad: read it, and end with what it says.
    FailWithAnswer,
    /// End with these words.
    Fail(String),
}

/// A good answer.
pub open spec fn is_success(status: u16) -> bool {
    200 <= status < 300
}

/// An answer that may be better the next time.
pub open spec fn may_improve(status: u16) -> bool {
    status == 429 || 500 <= status < 600
}

/// How long to pause when an answer says when to ask again, in seconds from now or with
/// a date; `backoff_ns` when it says neither.
pub open spec fn pause_after(
    seconds: Option<u64>,
    date: Option<u64>,
    now_ns: u128,
    backoff_ns: u128,
) -> u128 {
    match seconds {
        Some(s) => (s * 1_000_000_000) as u128,
        None => match date {
            Some(d) => if d * 1_000_000_000 > now_ns {
                (d * 1_000_000_000 - now_ns) as u128
            } else {
                0
            },
            None => backoff_ns,
        },
    }
}

/// Works out the pause.
pub fn pause_of(seconds: Option<u64>, date: Option<u64>, now_ns: u128, backoff_ns: u128) -> (r: u128)
    ensures
        r == pause_after(seconds, date, now_ns, backoff_ns),
{
    match seconds {
        Some(s) => s as u128 * 1_000_000_000,
        None => match date {
            Some(d) => {
                let at: u128 = d as u128 * 1_000_000_000;
                if at > now_ns {
                    at - now_ns
                } else {
                    0
                }
            },
            None => backoff_ns,
        },
    }
}

/// The pause that an answer asks for, read from its words.
pub open spec fn asked_pause(
    retry_after: Option<Seq<char>>,
    now_ns: u128,
    backoff_ns: u128,
) -> u128 {
    match retry_after {
        None => backoff_ns,
        Some(text) => match crate::number::unsigned_value(text) {
            Some(n) if n <= u64::MAX => pause_after(Some(n as u64), None, now_ns, backoff_ns),
            _ => pause_after(
                None,
                crate::outside::encoding::http_date(text),
                now_ns,
                backoff_ns,
            ),
        },
    }
}

/// Reads the pause that an answer asks for.
pub fn read_pause(retry_after: &Option<String>, now_ns: u128, backoff_ns: u128) -> (r: u128)
    ensures
        r == asked_pause(
            match *retry_after {
                Some(s) => Some(s@),
                None => None,
            },
            now_ns,
            backoff_ns,
        ),
{
    match retry_after {
        None => backoff_ns,
        Some(text) => match parse_unsigned(text.as_str(), u64::MAX) {
            Some(seconds) => pause_of(Some(seconds), None, now_ns, backoff_ns),
            None => pause_of(None, parse_http_date(text.as_str()), now_ns, backoff_ns),
        },
    }
}

impl Retry {
    /// How often the request was repeated.
    pub closed spec fn tries(self) -> nat {
        self.attempt as nat
    }

    /// The pause before the next try, in nanoseconds.
    pub closed spec fn pause(self) -> u128 {
        self.backoff_ns
    }

    /// How often the request was repeated.
    pub fn attempt(&self) -> (r: usize)
        ensures
            r == self.tries(),
    {
        self.attempt
    }

    /// No try yet.
    pub fn new() -> (r: Retry)
        ensures
            r.tries() == 0,
            r.pause() == FIRST_BACKOFF_NS,
            r.wf(),
    {
        Retry { attempt: 0, backoff_ns: FIRST_BACKOFF_NS }
    }

    /// The pause doubles with each try.
    pub open spec fn wf(self) -> bool {
        &&& self.tries() <= MAX_RETRIES
        &&& self.pause() == FIRST_BACKOFF_NS * doubled(self.tries())
    }

    /// What to do with the outcome of a request.
    pub open spec fn is_reaction(self, sent: Sent, r: Reaction) -> bool {
        match sent {
            Sent::Answered { status, retry_after, now_ns } => if is_success(status) {
                r is Accept
            } else if may_improve(status) && self.tries() < MAX_RETRIES {
                r == Reaction::PauseAndRetry(
                    asked_pause(
                        match retry_after {
                            Some(s) => Some(s@),
                            None => None,
                        },
                        now_ns,
                        self.pause(),
                    ),
                )
            } else {
                r is FailWithAnswer
            },
            Sent::Failed(reason) => if self.tries() < MAX_RETRIES {
                r == Reaction::PauseAndRetry(self.pause())
            } else {
                r matches Reaction::Fail(words) && words@
                    == "request error after retries: "@ + reason@
            },
        }
    }

    /// Takes the outcome of a request. Requests that were refused for now, or not
    /// answered, are repeated a few times, after longer and longer pauses.
    pub fn send_with_retry(&mut self, sent: Sent) -> (r: Reaction)
        requires
            old(self).wf(),
        ensures
            old(self).is_reaction(sent, r),
            final(self).wf(),
            r is PauseAndRetry ==> final(self).tries() == old(self).tries() + 1,
            !(r is PauseAndRetry) ==> *final(self) == *old(self),
    {
        match sent {
            Sent::Answered { status, retry_after, now_ns } => {
                if 200 <= status && status < 300 {
                    return Reaction::Accept;
                }
                if (status == 429 || (500 <= status && status < 600)) && self.attempt
                    < MAX_RETRIES {
                    let pause: u128 = read_pause(&retry_after, now_ns, self.backoff_ns);
                    self.tried_again();
                    return Reaction::PauseAndRetry(pause);
                }
                Reaction::FailWithAnswer
            },
            Sent::Failed(reason) => {
                if self.attempt >= MAX_RETRIES {
                    return Reaction::Fail(
                        cat2("request error after retries: ", reason.as_str()),
                    );
                }
                let pause: u128 = self.backoff_ns;
                self.tried_again();
                Reaction::PauseAndRetry(pause)
            },
        }
    }

    fn tried_again(&mut self)
        requires
            old(self).wf(),
            old(self).tries() < MAX_RETRIES,
        ensures
            final(self).wf(),
            final(self).tries() == old(self).tries() + 1,
    {
        proof {
            reveal_with_fuel(doubled, 5);
        }
        self.attempt = self.attempt + 1;
        self.backoff_ns = self.backoff_ns * 2;
    }
}

/// Two, multiplied with itself `n` times.
pub open spec fn doubled(n: nat) -> nat
    decreases n,
{
    if n == 0 {
        1
    } else {
        2 * doubled((n - 1) as nat)
    }
}

/// A request ends: each time it is repeated there are fewer tries left, and it is sent at
/// most four times.
pub proof fn law_retries_end(before: Retry, sent: Sent, r: Reaction, after: Retry)
    requires
        before.wf(),
        before.is_reaction(sent, r),
        r is PauseAndRetry,
        after.tries() == before.tries() + 1,
    ensures
        MAX_RETRIES - after.tries() < MAX_RETRIES - before.tries(),
        after.tries() <= MAX_RETRIES,
{
}

/// The words for a bad answer: its status for people, and what it says.
pub fn http_error(status: &str, text: &str) -> (r: String)
    ensures
        r@ == "HTTP "@ + status@ + ": "@ + text@,
{
    cat4("HTTP ", status, ": ", text)
}

/// Whether the worker must be uploaded: unless the version that was noted is the current
/// one.
pub fn install_worker(noted: &Option<String>, current: &str) -> (r: bool)
    ensures
        !r <==> (noted is Some && crate::text::trimmed(noted->0@) == current@),
{
    match noted {
        None => true,
        Some(version) => !same(trim(version.as_str()).as_str(), current),
    }
}

/// A path of the API is below its base, and a slash in front of it makes no difference.
pub proof fn law_path_is_below_the_base(client: CloudflareClient, path: Seq<char>)
    ensures
        client.address(seq!['/'] + path) == client.address(path),
        path.len() == 0 || path[0] != '/' ==> client.address(path) == client.base@ + seq!['/'] + path,
        client.address(path).take(client.base@.len() as int) == client.base@,
{
    reveal_strlit("/");
    assert("/"@ =~= seq!['/']);
    assert((seq!['/'] + path).drop_first() =~= path);
    assert(client.address(path).take(client.base@.len() as int) =~= client.base@);
}

/// A pause is as long as was asked for: so many seconds, or until the date; none when the
/// date has passed, and the pause that was meant when nothing was asked for.
pub proof fn law_pause_is_what_was_asked_for(
    seconds: u64,
    date: u64,
    now_ns: u128,
    backoff_ns: u128,
    other: Option<u64>,
)
    ensures
        pause_after(Some(seconds), other, now_ns, backoff_ns) == seconds * 1_000_000_000,
        date * 1_000_000_000 >= now_ns ==> now_ns + pause_after(
            None,
            Some(date),
            now_ns,
            backoff_ns,
        ) == date * 1_000_000_000,
        date * 1_000_000_000 < now_ns ==> pause_after(None, Some(date), now_ns, backoff_ns) == 0,
        pause_after(None, None, now_ns, backoff_ns) == backoff_ns,
{
}

/// An answer asks for a pause in words: in seconds where it writes a number, and else with a
/// date; one that says nothing, or nothing that can be read, leaves the pause as it was
/// meant.
pub proof fn law_pause_is_read_from_words(
    n: u64,
    text: Seq<char>,
    now_ns: u128,
    backoff_ns: u128,
)
    ensures
        asked_pause(Some(crate::number::decimal(n as nat)), now_ns, backoff_ns) == n
            * 1_000_000_000,
        asked_pause(None, now_ns, backoff_ns) == backoff_ns,
        crate::number::unsigned_value(text) is None && crate::outside::encoding::http_date(
            text,
        ) is None ==> asked_pause(Some(text), now_ns, backoff_ns) == backoff_ns,
        crate::number::unsigned_value(text) is None ==> (crate::outside::encoding::http_date(
            text,
        ) matches Some(date) ==> asked_pause(Some(text), now_ns, backoff_ns) == pause_after(
            None,
            Some(date),
            now_ns,
            backoff_ns,
        )),
{
    crate::number::law_decimal_read_back(n as nat);
}

/// A good answer is taken at once, however often was asked; and nothing else is taken.
pub proof fn law_good_answer_is_taken(retry: Retry, sent: Sent, r: Reaction)
    requires
        retry.is_reaction(sent, r),
    ensures
        r is Accept <==> (sent matches Sent::Answered { status, .. } && 200 <= status <= 299),
{
}

/// What may be better the next time is asked for again, three times: too many requests and
/// failures of the other side after the pause that they ask for, and no answer after the
/// pause that was meant. Any other answer, and the fourth failure, ends with what was said.
pub proof fn law_repeated_while_it_may_help(retry: Retry, sent: Sent, r: Reaction)
    requires
        retry.is_reaction(sent, r),
    ensures
        sent matches Sent::Answered { status, retry_after, now_ns } ==> {
            let helps = status == 429 || 500 <= status <= 599;
            &&& helps && retry.tries() < 3 ==> r == Reaction::PauseAndRetry(
                asked_pause(
                    match retry_after {
                        Some(s) => Some(s@),
                        None => None,
                    },
                    now_ns,
                    retry.pause(),
                ),
            )
            &&& helps && retry.tries() >= 3 ==> r is FailWithAnswer
            &&& !helps && !(200 <= status <= 299) ==> r is FailWithAnswer
        },
        sent matches Sent::Failed(reason) ==> {
            &&& retry.tries() < 3 ==> r == Reaction::PauseAndRetry(retry.pause())
            &&& retry.tries() >= 3 ==> (r matches Reaction::Fail(words)
                && crate::text::closes_with(words@, reason@))
        },
{
    if let Sent::Failed(reason) = sent {
        crate::text::law_closes_with_its_end("request error after retries: "@, reason@);
    }
}

/// The pauses start at three hundred milliseconds and get twice as long each time.
pub proof fn law_pauses_double(before: Retry, after: Retry)
    requires
        before.wf(),
        after.wf(),
    ensures
        before.tries() == 0 ==> before.pause() == 300 * 1_000_000,
        after.tries() == before.tries() + 1 ==> after.pause() == 2 * before.pause(),
        before.tries() <= 3,
{
    if after.tries() == before.tries() + 1 {
        assert(doubled(after.tries()) == 2 * doubled(before.tries()));
    }
}

}

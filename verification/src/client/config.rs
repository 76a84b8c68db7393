//! The client's configuration: asking for it, and trusting it again later.
use crate::client::ssh::SSHConfig;
use crate::common::r2::R2Config;
use crate::common::utils::calc_xxh3;
use crate::number::parse_unsigned;
use crate::text::{cat3, same, same_ignore_case, trim};
use vstd::prelude::*;
use vstd::utf8::*;

verus! {

/// The client's configuration.
#[derive(Debug)]
pub struct Config {
    /// When it was written, in seconds since 1970.
    pub time: u64,
    pub ssh_config: SSHConfig,
    pub r2_config: R2Config,
    /// The hash of everything else.
    pub hash: String,
}

/// The hash of a configuration: the XXH3 of its JSON with the hash left empty.
pub open spec fn hash_text(json: Seq<char>) -> Seq<char> {
    crate::number::hex(crate::outside::digest::xxh3(encode_utf8(json)) as nat)
}

/// Hashes a configuration from its JSON with the hash left empty.
pub fn calculate_hash(json: &str) -> (r: String)
    ensures
        r@ == hash_text(json@),
{
    calc_xxh3(json.as_bytes())
}

/// Takes a configuration from its file when it was not changed since it was written.
/// `json` is its JSON with the hash left empty.
pub fn load_config(found: bool, config: Config, json: &str, path: &str) -> (r: Result<
    Config,
    String,
>)
    ensures
        r is Ok <==> found && config.hash@ == hash_text(json@),
        r matches Ok(c) ==> c == config,
        r matches Err(e) ==> e@ == if !found {
            "配置文件不存在"@
        } else {
            "配置文件 "@ + path@ + " 数据校验失败，请重新登录设置"@
        },
{
    if !found {
        return Err("配置文件不存在".to_owned());
    }
    let hash = calculate_hash(json);
    if !same(config.hash.as_str(), hash.as_str()) {
        return Err(cat3("配置文件 ", path, " 数据校验失败，请重新登录设置"));
    }
    Ok(config)
}

/// Dates and hashes a configuration for its file. `json` is its JSON with that date and
/// the hash left empty.
pub fn save_config(config: Config, now: u64, json: &str) -> (r: Config)
    ensures
        r.time == now,
        r.hash@ == hash_text(json@),
        r.ssh_config == config.ssh_config,
        r.r2_config == config.r2_config,
{
    Config {
        time: now,
        ssh_config: config.ssh_config,
        r2_config: config.r2_config,
        hash: calculate_hash(json),
    }
}

/// The configuration, once it was loaded: what is there already stays, and only the first
/// time `loaded` counts.
pub fn get_config<'a>(global: &'a mut Option<Config>, loaded: Result<Config, String>) -> (r: Result<
    &'a Config,
    String,
>)
    ensures
        r is Ok <==> *old(global) is Some || loaded is Ok,
        *final(global) == match *old(global) {
            Some(c) => Some(c),
            None => match loaded {
                Ok(c) => Some(c),
                Err(_) => None,
            },
        },
        r matches Ok(c) ==> *final(global) == Some(*c),
        r matches Err(e) ==> loaded == Err::<Config, String>(e),
{
    if global.is_none() {
        match loaded {
            Ok(c) => {
                *global = Some(c);
            },
            Err(e) => return Err(e),
        }
    }
    Ok(global.as_ref().unwrap())
}

/// Where the questions for the configuration are.
#[derive(Debug, Clone, Copy, PartialEq, Eq, Structural)]
pub enum LoginStep {
    Overwrite,
    Hostname,
    Port,
    User,
    PrivateKey,
    ResolvingKey,
    Password,
    TestingSsh,
    Endpoint,
    AccessKeyId,
    SecretAccessKey,
    TestingR2,
    Saving,
    Ended,
}

/// What happened.
#[derive(Debug)]
pub enum LoginEvent {
    /// The line that was typed.
    Answer(String),
    /// The private key's path in full.
    Resolved(String),
    SshConnected,
    R2Connected,
}

/// What to do next.
#[derive(Debug)]
pub enum LoginAction {
    /// Ask with this label.
    Ask(String),
    /// Find the full path of the private key.
    Resolve(String),
    TestSsh,
    TestR2,
    Save,
    /// Say that nothing was changed, and end.
    Cancelled(String),
}

/// The answers so far.
#[derive(Debug)]
pub struct Login {
    pub step: LoginStep,
    pub ssh_config: SSHConfig,
    pub r2_config: R2Config,
}

/// The answer without the white space around it, or nothing when none was given.
pub open spec fn is_optional(r: Option<String>, text: Seq<char>) -> bool {
    if text.len() == 0 {
        r is None
    } else {
        r matches Some(t) && t@ == text
    }
}

/// `a` asks with the label `label`.
pub open spec fn asks(a: LoginAction, label: Seq<char>) -> bool {
    a matches LoginAction::Ask(l) && l@ == label
}

impl Login {
    /// Starts the questions: whether to write over a configuration that is there, and the
    /// first of the others.
    pub fn new(config_found: bool) -> (r: (Login, LoginAction))
        ensures
            r.0.step == if config_found {
                LoginStep::Overwrite
            } else {
                LoginStep::Hostname
            },
            r.0.ssh_config.password is None,
            r.0.ssh_config.private_key_path is None,
            asks(
                r.1,
                if config_found {
                    "配置文件已存在，是否覆盖？(y/N)"@
                } else {
                    "主机地址"@
                },
            ),
    {
        let ssh_config = SSHConfig {
            hostname: String::new(),
            port: 0,
            user: String::new(),
            password: None,
            private_key_path: None,
        };
        let r2_config = R2Config::default();
        if config_found {
            (
                Login { step: LoginStep::Overwrite, ssh_config, r2_config },
                LoginAction::Ask("配置文件已存在，是否覆盖？(y/N)".to_owned()),
            )
        } else {
            (
                Login { step: LoginStep::Hostname, ssh_config, r2_config },
                LoginAction::Ask("主机地址".to_owned()),
            )
        }
    }

    /// The event can happen.
    pub open spec fn expects(self, event: LoginEvent) -> bool {
        match self.step {
            LoginStep::ResolvingKey => event is Resolved,
            LoginStep::TestingSsh => event is SshConnected,
            LoginStep::TestingR2 => event is R2Connected,
            LoginStep::Saving => false,
            LoginStep::Ended => false,
            _ => event is Answer,
        }
    }

    /// The step behind an answer `text`.
    pub open spec fn next_step(self, event: LoginEvent) -> LoginStep {
        let text = crate::text::trimmed(event->Answer_0@);
        match self.step {
            LoginStep::Overwrite => if crate::text::ascii_lowered(text)
                == crate::text::ascii_lowered("y"@) {
                LoginStep::Hostname
            } else {
                LoginStep::Ended
            },
            LoginStep::Hostname => LoginStep::Port,
            LoginStep::Port => if is_port(text) {
                LoginStep::User
            } else {
                LoginStep::Ended
            },
            LoginStep::User => LoginStep::PrivateKey,
            LoginStep::PrivateKey => if text.len() == 0 {
                LoginStep::Password
            } else {
                LoginStep::ResolvingKey
            },
            LoginStep::ResolvingKey => LoginStep::Password,
            LoginStep::Password => LoginStep::TestingSsh,
            LoginStep::TestingSsh => LoginStep::Endpoint,
            LoginStep::Endpoint => LoginStep::AccessKeyId,
            LoginStep::AccessKeyId => LoginStep::SecretAccessKey,
            LoginStep::SecretAccessKey => LoginStep::TestingR2,
            LoginStep::TestingR2 => LoginStep::Saving,
            _ => LoginStep::Ended,
        }
    }

    /// `r` is what to do behind an event: only a port that is none ends with an error.
    pub open spec fn is_next(self, event: LoginEvent, r: Result<LoginAction, String>) -> bool {
        let text = crate::text::trimmed(event->Answer_0@);
        match self.step {
            LoginStep::Overwrite => if crate::text::ascii_lowered(text)
                == crate::text::ascii_lowered("y"@) {
                r matches Ok(a) && asks(a, "主机地址"@)
            } else {
                r matches Ok(LoginAction::Cancelled(words)) && words@ == "已取消配置更改。"@
            },
            LoginStep::Hostname => r matches Ok(a) && asks(a, "端口"@),
            LoginStep::Port => if is_port(text) {
                r matches Ok(a) && asks(a, "用户名"@)
            } else {
                r matches Err(e) && e@ == "无效的端口号"@
            },
            LoginStep::User => r matches Ok(a) && asks(a, "私钥路径 (推荐，回车跳过)"@),
            LoginStep::PrivateKey => if text.len() == 0 {
                r matches Ok(a) && asks(a, "密码"@)
            } else {
                r matches Ok(LoginAction::Resolve(path)) && path@ == text
            },
            LoginStep::ResolvingKey => r matches Ok(a) && asks(
                a,
                "密码 (已设置私钥，回车跳过)"@,
            ),
            LoginStep::Password => r matches Ok(a) && a is TestSsh,
            LoginStep::TestingSsh => r matches Ok(a) && asks(a, "S3 API Endpoint"@),
            LoginStep::Endpoint => r matches Ok(a) && asks(a, "AccessKeyID"@),
            LoginStep::AccessKeyId => r matches Ok(a) && asks(a, "SecretAccessKey"@),
            LoginStep::SecretAccessKey => r matches Ok(a) && a is TestR2,
            _ => r matches Ok(a) && a is Save,
        }
    }

    /// `after` holds the answers of `self` and the one that `event` gave.
    pub open spec fn answered(self, event: LoginEvent, after: Login) -> bool {
        let text = crate::text::trimmed(event->Answer_0@);
        let s = self.ssh_config;
        let t = after.ssh_config;
        let q = self.r2_config;
        let p = after.r2_config;
        &&& if self.step == LoginStep::Hostname {
            t.hostname@ == text
        } else {
            t.hostname == s.hostname
        }
        &&& if self.step == LoginStep::Port && is_port(text) {
            crate::number::unsigned_value(text) == Some(t.port as nat)
        } else {
            t.port == s.port
        }
        &&& if self.step == LoginStep::User {
            t.user@ == text
        } else {
            t.user == s.user
        }
        &&& if self.step == LoginStep::ResolvingKey {
            t.private_key_path == Some(event->Resolved_0)
        } else if self.step == LoginStep::PrivateKey {
            t.private_key_path is None
        } else {
            t.private_key_path == s.private_key_path
        }
        &&& if self.step == LoginStep::Password {
            is_optional(t.password, text)
        } else {
            t.password == s.password
        }
        &&& if self.step == LoginStep::Endpoint {
            p.endpoint@ == text
        } else {
            p.endpoint == q.endpoint
        }
        &&& if self.step == LoginStep::AccessKeyId {
            p.access_key_id@ == text
        } else {
            p.access_key_id == q.access_key_id
        }
        &&& if self.step == LoginStep::SecretAccessKey {
            p.secret_access_key@ == text
        } else {
            p.secret_access_key == q.secret_access_key
        }
    }

    /// Takes an event and goes on.
    pub fn login(&mut self, event: LoginEvent) -> (r: Result<LoginAction, String>)
        requires
            old(self).expects(event),
        ensures
            old(self).is_next(event, r),
            final(self).step == old(self).next_step(event),
            old(self).answered(event, *final(self)),
            event matches LoginEvent::Answer(line) ==> (crate::number::unsigned_value(
                crate::text::trimmed(line@),
            ) matches Some(n) ==> old(self).step == LoginStep::Port && n <= 65535 ==> r is Ok
                && final(self).ssh_config.port == n && final(self).step == LoginStep::User),
    {
        match event {
            LoginEvent::Answer(line) => {
                let text = trim(line.as_str());
                self.answer(text, line)
            },
            LoginEvent::Resolved(path) => {
                self.ssh_config.private_key_path = Some(path);
                self.step = LoginStep::Password;
                Ok(LoginAction::Ask("密码 (已设置私钥，回车跳过)".to_owned()))
            },
            LoginEvent::SshConnected => {
                self.step = LoginStep::Endpoint;
                Ok(LoginAction::Ask("S3 API Endpoint".to_owned()))
            },
            LoginEvent::R2Connected => {
                self.step = LoginStep::Saving;
                Ok(LoginAction::Save)
            },
        }
    }

    fn answer(&mut self, text: String, line: String) -> (r: Result<LoginAction, String>)
        requires
            old(self).expects(LoginEvent::Answer(line)),
            text@ == crate::text::trimmed(line@),
        ensures
            old(self).is_next(LoginEvent::Answer(line), r),
            final(self).step == old(self).next_step(LoginEvent::Answer(line)),
            old(self).answered(LoginEvent::Answer(line), *final(self)),
    {
        match self.step {
            LoginStep::Overwrite => {
                if same_ignore_case(text.as_str(), "y") {
                    self.step = LoginStep::Hostname;
                    Ok(LoginAction::Ask("主机地址".to_owned()))
                } else {
                    self.step = LoginStep::Ended;
                    Ok(LoginAction::Cancelled("已取消配置更改。".to_owned()))
                }
            },
            LoginStep::Hostname => {
                self.ssh_config.hostname = text;
                self.step = LoginStep::Port;
                Ok(LoginAction::Ask("端口".to_owned()))
            },
            LoginStep::Port => match parse_unsigned(text.as_str(), 65535) {
                Some(port) => {
                    self.ssh_config.port = port as u16;
                    self.step = LoginStep::User;
                    Ok(LoginAction::Ask("用户名".to_owned()))
                },
                None => {
                    self.step = LoginStep::Ended;
                    Err("无效的端口号".to_owned())
                },
            },
            LoginStep::User => {
                self.ssh_config.user = text;
                self.step = LoginStep::PrivateKey;
                Ok(LoginAction::Ask("私钥路径 (推荐，回车跳过)".to_owned()))
            },
            LoginStep::PrivateKey => {
                self.ssh_config.private_key_path = None;
                if text.as_str().is_empty() {
                    self.step = LoginStep::Password;
                    Ok(LoginAction::Ask("密码".to_owned()))
                } else {
                    self.step = LoginStep::ResolvingKey;
                    Ok(LoginAction::Resolve(text))
                }
            },
            LoginStep::Password => {
                self.ssh_config.password = if text.as_str().is_empty() {
                    None
                } else {
                    Some(text)
                };
                self.step = LoginStep::TestingSsh;
                Ok(LoginAction::TestSsh)
            },
            LoginStep::Endpoint => {
                self.r2_config.endpoint = text;
                self.step = LoginStep::AccessKeyId;
                Ok(LoginAction::Ask("AccessKeyID".to_owned()))
            },
            LoginStep::AccessKeyId => {
                self.r2_config.access_key_id = text;
                self.step = LoginStep::SecretAccessKey;
                Ok(LoginAction::Ask("SecretAccessKey".to_owned()))
            },
            LoginStep::SecretAccessKey => {
                self.r2_config.secret_access_key = text;
                self.step = LoginStep::TestingR2;
                Ok(LoginAction::TestR2)
            },
            _ => Ok(LoginAction::Save),
        }
    }
}

/// `text` is the number of a port.
pub open spec fn is_port(text: Seq<char>) -> bool {
    crate::number::unsigned_value(text) is Some && crate::number::unsigned_value(text)->0 <= 65535
}

/// Nothing is asked again: every event leads to a later question, or to the end.
pub proof fn law_login_goes_forward(login: Login, event: LoginEvent)
    requires
        login.expects(event),
    ensures
        step_rank(login.next_step(event)) > step_rank(login.step),
{
}

/// The order of the questions.
pub open spec fn step_rank(step: LoginStep) -> nat {
    match step {
        LoginStep::Overwrite => 0,
        LoginStep::Hostname => 1,
        LoginStep::Port => 2,
        LoginStep::User => 3,
        LoginStep::PrivateKey => 4,
        LoginStep::ResolvingKey => 5,
        LoginStep::Password => 6,
        LoginStep::TestingSsh => 7,
        LoginStep::Endpoint => 8,
        LoginStep::AccessKeyId => 9,
        LoginStep::SecretAccessKey => 10,
        LoginStep::TestingR2 => 11,
        LoginStep::Saving => 12,
        LoginStep::Ended => 13,
    }
}

proof fn lemma_decimal_is_trimmed(n: nat)
    ensures
        crate::text::trimmed(crate::number::decimal(n)) == crate::number::decimal(n),
{
    crate::number::law_decimal_is_digits(n);
    let s = crate::number::decimal(n);
    assert('0' <= s[0] <= '9');
    assert('0' <= s[s.len() - 1] <= '9');
    assert(crate::text::trimmed_start(s) == s);
    assert(crate::text::trimmed_end(s) == s);
}

/// Every port is taken: whoever answers the question for it with the number of one, in
/// decimal, is asked for the user next, and the port is that number.
pub proof fn law_every_port_is_taken(
    login: Login,
    line: String,
    n: nat,
    r: Result<LoginAction, String>,
    after: Login,
)
    requires
        login.step == LoginStep::Port,
        n <= 65535,
        line@ == crate::number::decimal(n) || crate::text::trimmed(line@)
            == crate::number::decimal(n),
        login.is_next(LoginEvent::Answer(line), r),
        login.answered(LoginEvent::Answer(line), after),
    ensures
        login.next_step(LoginEvent::Answer(line)) == LoginStep::User,
        r matches Ok(action) && asks(action, "用户名"@),
        after.ssh_config.port == n,
{
    crate::number::law_decimal_read_back(n);
    lemma_decimal_is_trimmed(n);
}

/// Only a port is taken for one: where the login goes on behind that question, the answer
/// writes the number that is then the port; and nothing else ends with an error.
pub proof fn law_only_a_port_is_taken(
    login: Login,
    event: LoginEvent,
    r: Result<LoginAction, String>,
    after: Login,
)
    requires
        login.expects(event),
        login.is_next(event, r),
        login.answered(event, after),
    ensures
        r is Err ==> login.step == LoginStep::Port,
        login.step == LoginStep::Port ==> (r is Ok <==> crate::number::unsigned_value(
            crate::text::trimmed(event->Answer_0@),
        ) == Some(after.ssh_config.port as nat) || (exists|n: nat|
            n <= 65535 && crate::number::unsigned_value(crate::text::trimmed(event->Answer_0@))
                == Some(n))),
        r is Err <==> login.step == LoginStep::Port && login.next_step(event) == LoginStep::Ended,
{
    if login.step == LoginStep::Port {
        let text = crate::text::trimmed(event->Answer_0@);
        if r is Ok {
            let n = crate::number::unsigned_value(text)->0;
            assert(n <= 65535 && crate::number::unsigned_value(text) == Some(n));
        }
    }
}

/// A configuration that is there is written over only when that is wanted: on the answer
/// `y`, large or small, and on no other.
pub proof fn law_overwrites_only_when_told(
    login: Login,
    line: String,
    r: Result<LoginAction, String>,
)
    requires
        login.step == LoginStep::Overwrite,
        login.is_next(LoginEvent::Answer(line), r),
    ensures
        crate::text::trimmed(line@) == seq!['y'] || crate::text::trimmed(line@) == seq!['Y'] ==> (r matches Ok(
            action,
        ) && asks(action, "主机地址"@)) && login.next_step(LoginEvent::Answer(line))
            == LoginStep::Hostname,
        crate::text::trimmed(line@) != seq!['y'] && crate::text::trimmed(line@) != seq!['Y'] ==> (
        r matches Ok(LoginAction::Cancelled(_))) && login.next_step(LoginEvent::Answer(line))
            == LoginStep::Ended,
{
    reveal_strlit("y");
    let text = crate::text::trimmed(line@);
    let low = crate::text::ascii_lowered(text);
    assert("y"@ =~= seq!['y']);
    assert(crate::text::ascii_lowered(seq!['y']) =~= seq!['y']);
    assert(crate::text::ascii_lowered(seq!['Y']) =~= seq!['y']);
    if low == seq!['y'] {
        assert(text.len() == 1);
        assert(low[0] == crate::text::ascii_lower(text[0]));
        assert(text =~= seq![text[0]]);
    }
}

/// Whoever answers every question has those answers saved, each as what was asked for: without a private key, the
/// host, the port, the user and the password are what was answered, and so are the endpoint
/// and the keys of the store. Both are tested before anything is saved.
pub proof fn law_login_saves_the_answers(
    logins: Seq<Login>,
    answers: Seq<String>,
    port: u16,
    actions: Seq<Result<LoginAction, String>>,
)
    requires
        logins.len() == 11,
        actions.len() == 10,
        answers.len() == 8,
        logins[0].step == LoginStep::Hostname,
        crate::text::trimmed(answers[1]@) == crate::number::decimal(port as nat),
        crate::text::trimmed(answers[3]@).len() == 0,
        forall|i: int|
            0 <= i < 10 ==> {
                let event = if i < 5 {
                    LoginEvent::Answer(answers[i])
                } else if i == 5 {
                    LoginEvent::SshConnected
                } else if i < 9 {
                    LoginEvent::Answer(answers[i - 1])
                } else {
                    LoginEvent::R2Connected
                };
                &&& (#[trigger] logins[i]).is_next(event, actions[i])
                &&& logins[i].answered(event, logins[i + 1])
                &&& logins[i + 1].step == logins[i].next_step(event)
            },
    ensures
        logins[10].step == LoginStep::Saving,
        actions[0] matches Ok(a) && asks(a, "端口"@),
        actions[1] matches Ok(a) && asks(a, "用户名"@),
        actions[3] matches Ok(a) && asks(a, "密码"@),
        actions[5] matches Ok(a) && asks(a, "S3 API Endpoint"@),
        actions[6] matches Ok(a) && asks(a, "AccessKeyID"@),
        actions[7] matches Ok(a) && asks(a, "SecretAccessKey"@),
        actions[4] == Ok::<LoginAction, String>(LoginAction::TestSsh),
        actions[8] == Ok::<LoginAction, String>(LoginAction::TestR2),
        actions[9] == Ok::<LoginAction, String>(LoginAction::Save),
        logins[10].ssh_config.hostname@ == crate::text::trimmed(answers[0]@),
        logins[10].ssh_config.port == port,
        logins[10].ssh_config.user@ == crate::text::trimmed(answers[2]@),
        logins[10].ssh_config.private_key_path is None,
        is_optional(logins[10].ssh_config.password, crate::text::trimmed(answers[4]@)),
        logins[10].r2_config.endpoint@ == crate::text::trimmed(answers[5]@),
        logins[10].r2_config.access_key_id@ == crate::text::trimmed(answers[6]@),
        logins[10].r2_config.secret_access_key@ == crate::text::trimmed(answers[7]@),
{
    crate::number::law_decimal_read_back(port as nat);
    assert(logins[0].step == LoginStep::Hostname);
    assert(logins[1].step == LoginStep::Port);
    assert(logins[2].step == LoginStep::User);
    assert(logins[3].step == LoginStep::PrivateKey);
    assert(logins[4].step == LoginStep::Password);
    assert(logins[5].step == LoginStep::TestingSsh);
    assert(logins[6].step == LoginStep::Endpoint);
    assert(logins[7].step == LoginStep::AccessKeyId);
    assert(logins[8].step == LoginStep::SecretAccessKey);
    assert(logins[9].step == LoginStep::TestingR2);
    assert(logins[10].step == LoginStep::Saving);
}

/// A private key that was given is looked for by the answer, and kept under the path that
/// was found; the question for the password comes next.
pub proof fn law_private_key_is_kept(
    logins: Seq<Login>,
    line: String,
    path: String,
    actions: Seq<Result<LoginAction, String>>,
)
    requires
        logins.len() == 3,
        actions.len() == 2,
        logins[0].step == LoginStep::PrivateKey,
        crate::text::trimmed(line@).len() > 0,
        logins[0].is_next(LoginEvent::Answer(line), actions[0]),
        logins[0].answered(LoginEvent::Answer(line), logins[1]),
        logins[1].step == logins[0].next_step(LoginEvent::Answer(line)),
        logins[1].is_next(LoginEvent::Resolved(path), actions[1]),
        logins[1].answered(LoginEvent::Resolved(path), logins[2]),
        logins[2].step == logins[1].next_step(LoginEvent::Resolved(path)),
    ensures
        actions[0] matches Ok(LoginAction::Resolve(asked)) && asked@ == crate::text::trimmed(
            line@,
        ),
        logins[1].expects(LoginEvent::Resolved(path)),
        actions[1] matches Ok(LoginAction::Ask(_)),
        logins[2].step == LoginStep::Password,
        logins[2].ssh_config.private_key_path == Some(path),
{
}

/// An answer changes nothing but what was asked for: the answers that were given before
/// stay as they are.
pub proof fn law_answers_stay(login: Login, event: LoginEvent, after: Login)
    requires
        login.expects(event),
        login.answered(event, after),
    ensures
        login.step != LoginStep::Hostname ==> after.ssh_config.hostname
            == login.ssh_config.hostname,
        login.step != LoginStep::Port ==> after.ssh_config.port == login.ssh_config.port,
        login.step != LoginStep::User ==> after.ssh_config.user == login.ssh_config.user,
        login.step != LoginStep::Password ==> after.ssh_config.password
            == login.ssh_config.password,
        step_rank(login.step) < 4 || step_rank(login.step) > 5
            ==> after.ssh_config.private_key_path == login.ssh_config.private_key_path,
        login.step != LoginStep::Endpoint ==> after.r2_config.endpoint
            == login.r2_config.endpoint,
        login.step != LoginStep::AccessKeyId ==> after.r2_config.access_key_id
            == login.r2_config.access_key_id,
        login.step != LoginStep::SecretAccessKey ==> after.r2_config.secret_access_key
            == login.r2_config.secret_access_key,
{
}

/// An answer that was given is kept, and only none is none.
pub proof fn law_optional_is_none_only_when_empty(r: Option<String>, text: Seq<char>)
    requires
        is_optional(r, text),
    ensures
        r is None <==> text == Seq::<char>::empty(),
        r is Some ==> r->0@ == text,
{
    if text.len() == 0 {
        assert(text =~= Seq::<char>::empty());
    }
}

/// A configuration that was changed is noticed whenever the XXH3 of its JSON changed: two
/// that have the same hash have the same XXH3.
pub proof fn law_changed_config_is_noticed(a: Seq<char>, b: Seq<char>)
    requires
        hash_text(a) == hash_text(b),
    ensures
        crate::outside::digest::xxh3(encode_utf8(a)) == crate::outside::digest::xxh3(
            encode_utf8(b),
        ),
{
    crate::number::law_numeral_injective(
        crate::outside::digest::xxh3(encode_utf8(a)) as nat,
        crate::outside::digest::xxh3(encode_utf8(b)) as nat,
        16,
    );
}

}

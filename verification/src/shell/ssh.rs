//! Running a command on the remote host with `ssh`.
use crate::number::{decimal_of, signed_decimal_of};
use crate::outside::utf8::text_lossy;
use crate::text::{cat2, cat3, cat4, cat5, replace_all};
use vstd::prelude::*;

verus! {

/// How to reach the remote host.
#[derive(Debug)]
pub struct SSHConfig {
    pub host: String,
    pub port: u16,
    pub user: String,
    pub password: Option<String>,
    pub private_key_path: Option<String>,
}

/// What a command that ran to its end left. One that was ended by a signal has no code.
#[derive(Debug)]
pub struct CommandOutput {
    pub status_code: Option<i32>,
    pub stdout: String,
    pub stderr: String,
}

/// Takes down what a command left. Bytes that are no text are replaced.
pub fn execute_command(status_code: Option<i32>, stdout: &[u8], stderr: &[u8]) -> (r: CommandOutput)
    ensures
        r.status_code == status_code,
        r.stdout@ == crate::outside::utf8::readable(stdout@),
        r.stderr@ == crate::outside::utf8::readable(stderr@),
{
    CommandOutput { status_code, stdout: text_lossy(stdout), stderr: text_lossy(stderr) }
}

/// What to copy to the remote host.
#[derive(Debug)]
pub enum LocalSource {
    /// A file.
    Path(String),
    /// Bytes.
    Bytes(Vec<u8>),
}

/// The programs that may be `ssh`, the best first.
pub fn ssh_candidates(windows: bool) -> (r: Vec<String>)
    ensures
        crate::text::views(r@) == if windows {
            seq!["ssh.exe"@, "ssh"@]
        } else {
            seq!["ssh"@]
        },
{
    let mut out: Vec<String> = Vec::new();
    if windows {
        out.push("ssh.exe".to_owned());
    }
    out.push("ssh".to_owned());
    assert(crate::text::views(out@) =~= if windows {
        seq!["ssh.exe"@, "ssh"@]
    } else {
        seq!["ssh"@]
    });
    out
}

/// `version` is what OpenSSH says of itself, in whatever case.
pub open spec fn is_openssh(version: Seq<char>) -> bool {
    crate::text::occurs(crate::text::ascii_lowered(version), "openssh"@)
}

/// Whether a program that calls itself `version` is OpenSSH.
pub fn speaks_openssh(version: &str) -> (r: bool)
    ensures
        r == is_openssh(version@),
{
    let lowered = crate::text::lower_chars(version);
    let wanted = crate::text::chars_of("openssh");
    match crate::text::find(&lowered, &wanted) {
        Some(_) => true,
        None => false,
    }
}

/// The program at `i` could be asked, and is OpenSSH.
pub open spec fn is_usable(answers: Seq<Option<Vec<u8>>>, i: int) -> bool {
    0 <= i < answers.len() && (answers[i] matches Some(v) && is_openssh(
        crate::outside::utf8::readable(v@),
    ))
}

/// Chooses the first of `candidates` that is OpenSSH by what each said of itself.
pub fn detect_ssh_command(candidates: &Vec<String>, answers: &Vec<Option<Vec<u8>>>) -> (r: Result<
    String,
    String,
>)
    requires
        candidates@.len() == answers@.len(),
    ensures
        match r {
            Ok(cmd) => exists|i: int|
                #![trigger is_usable(answers@, i)]
                is_usable(answers@, i) && cmd@ == candidates@[i]@ && forall|j: int|
                    #![trigger is_usable(answers@, j)]
                    j < i ==> !is_usable(answers@, j),
            Err(e) => (forall|j: int| !#[trigger] is_usable(answers@, j)) && e@
                == "未找到可用的 SSH 命令，请安装 OpenSSH 客户端"@,
        },
{
    for i in 0..candidates.len()
        invariant
            candidates@.len() == answers@.len(),
            forall|j: int| j < i ==> !#[trigger] is_usable(answers@, j),
    {
        match &answers[i] {
            Some(version) => {
                let said = text_lossy(version.as_slice());
                if speaks_openssh(said.as_str()) {
                    assert(is_usable(answers@, i as int));
                    return Ok(candidates[i].clone());
                }
            },
            None => {},
        }
        assert(!is_usable(answers@, i as int));
    }
    Err("未找到可用的 SSH 命令，请安装 OpenSSH 客户端".to_owned())
}

/// The configuration that is written for a start.
pub fn default_config() -> (r: SSHConfig)
    ensures
        r.host@ == "192.168.1.100"@,
        r.port == 22,
        r.user@ == "root"@,
        r.password is Some && r.password->0@ == "your_password"@,
        r.private_key_path is Some && r.private_key_path->0@ == "your_private_key_path"@,
{
    SSHConfig {
        host: "192.168.1.100".to_owned(),
        port: 22,
        user: "root".to_owned(),
        password: Some("your_password".to_owned()),
        private_key_path: Some("your_private_key_path".to_owned()),
    }
}

/// The words in front of the configuration that is written for a start.
pub open spec fn config_header() -> Seq<char> {
    "# SSH 连接配置\n# host: 目标主机IP或域名\n# port: SSH端口\n# user: 登录用户名\n# password: 登录密码\n# private_key_path: 私钥路径（Windows路径使用单引号包裹）\n# 如果同时设置了 password 和 private_key_path，则优先使用私钥登录\n\n"@
}

/// The file that is written for a start: the words, then `body`, in which the path of the
/// private key stands between single quotes.
pub fn config_file(body: &str) -> (r: String)
    ensures
        r@ == config_header() + crate::text::replaced(
            body@,
            "private_key_path = \"your_private_key_path\""@,
            "private_key_path = 'your_private_key_path'"@,
        ),
{
    proof {
        reveal_strlit("private_key_path = \"your_private_key_path\"");
    }
    let quoted = replace_all(
        body,
        "private_key_path = \"your_private_key_path\"",
        "private_key_path = 'your_private_key_path'",
    );
    cat2(
        "# SSH 连接配置\n# host: 目标主机IP或域名\n# port: SSH端口\n# user: 登录用户名\n# password: 登录密码\n# private_key_path: 私钥路径（Windows路径使用单引号包裹）\n# 如果同时设置了 password 和 private_key_path，则优先使用私钥登录\n\n",
        quoted.as_str(),
    )
}

/// The arguments that name the private key: none when there is no key, or its file is not
/// there.
pub open spec fn key_args(key: Option<String>, key_found: bool) -> Seq<Seq<char>> {
    match key {
        Some(k) => if k@.len() > 0 && key_found {
            seq!["-i"@, k@]
        } else {
            Seq::empty()
        },
        None => Seq::empty(),
    }
}

/// Puts the arguments that name the private key behind `args`.
pub fn push_key(args: &mut Vec<String>, key: &Option<String>, key_found: bool)
    ensures
        crate::text::views(final(args)@) == crate::text::views(old(args)@) + key_args(
            *key,
            key_found,
        ),
{
    match key {
        Some(k) => {
            if !k.as_str().is_empty() && key_found {
                args.push("-i".to_owned());
                args.push(k.clone());
            }
        },
        None => {},
    }
    assert(crate::text::views(args@) =~= crate::text::views(old(args)@) + key_args(
        *key,
        key_found,
    ));
}

/// The host as `ssh` wants it.
pub fn target_of(user: &str, host: &str) -> (r: String)
    ensures
        r@ == user@ + "@"@ + host@,
{
    cat3(user, "@", host)
}

/// The arguments of `ssh` for a command.
pub open spec fn ssh_args(config: SSHConfig, key_found: bool, command: Seq<char>) -> Seq<
    Seq<char>,
> {
    seq!["-p"@, crate::number::decimal(config.port as nat)] + key_args(
        config.private_key_path,
        key_found,
    ) + seq![config.user@ + "@"@ + config.host@, command]
}

/// Writes the arguments of `ssh` for a command.
pub fn ssh_run(config: &SSHConfig, key_found: bool, command: &str) -> (r: Vec<String>)
    ensures
        crate::text::views(r@) == ssh_args(*config, key_found, command@),
{
    let mut args: Vec<String> = Vec::new();
    args.push("-p".to_owned());
    args.push(decimal_of(config.port as u64));
    assert(crate::text::views(args@) =~= seq!["-p"@, crate::number::decimal(config.port as nat)]);
    push_key(&mut args, &config.private_key_path, key_found);
    let ghost head = crate::text::views(args@);
    args.push(target_of(config.user.as_str(), config.host.as_str()));
    args.push(command.to_owned());
    assert(crate::text::views(args@) =~= head + seq![config.user@ + "@"@ + config.host@, command@]);
    args
}

/// The arguments of `scp` for a file.
pub open spec fn scp_args(
    config: SSHConfig,
    key_found: bool,
    local_path: Seq<char>,
    remote_path: Seq<char>,
) -> Seq<Seq<char>> {
    seq!["-P"@, crate::number::decimal(config.port as nat)] + key_args(
        config.private_key_path,
        key_found,
    ) + seq![local_path, config.user@ + "@"@ + config.host@ + ":"@ + remote_path]
}

/// Writes the arguments of `scp` for a file.
pub fn scp(config: &SSHConfig, key_found: bool, local_path: &str, remote_path: &str) -> (r: Vec<
    String,
>)
    ensures
        crate::text::views(r@) == scp_args(*config, key_found, local_path@, remote_path@),
{
    let mut args: Vec<String> = Vec::new();
    args.push("-P".to_owned());
    args.push(decimal_of(config.port as u64));
    assert(crate::text::views(args@) =~= seq!["-P"@, crate::number::decimal(config.port as nat)]);
    push_key(&mut args, &config.private_key_path, key_found);
    let ghost head = crate::text::views(args@);
    args.push(local_path.to_owned());
    args.push(cat5(config.user.as_str(), "@", config.host.as_str(), ":", remote_path));
    assert(crate::text::views(args@) =~= head + seq![
        local_path@,
        config.user@ + "@"@ + config.host@ + ":"@ + remote_path@,
    ]);
    args
}

/// The command that looks whether a file is there.
pub fn test_command(path: &str) -> (r: String)
    ensures
        r@ == "test -e "@ + path@,
{
    cat2("test -e ", path)
}

/// `r` is what the end of that command says.
pub open spec fn is_found(r: Result<bool, String>, output: CommandOutput) -> bool {
    match output.status_code {
        Some(code) => if code == 0 {
            r == Ok::<bool, String>(true)
        } else if code == 1 {
            r == Ok::<bool, String>(false)
        } else {
            r matches Err(e) && e@ == "检查文件时发生意外错误 (退出码: "@
                + crate::number::signed_decimal(code as int) + "): "@ + output.stderr@
        },
        None => r matches Err(e) && e@ == "检查文件的远程进程被信号终止"@,
    }
}

/// Reads from the end of that command whether the file is there.
pub fn file_exists(output: &CommandOutput) -> (r: Result<bool, String>)
    ensures
        is_found(r, *output),
{
    match output.status_code {
        Some(code) => if code == 0 {
            Ok(true)
        } else if code == 1 {
            Ok(false)
        } else {
            Err(
                cat4(
                    "检查文件时发生意外错误 (退出码: ",
                    signed_decimal_of(code).as_str(),
                    "): ",
                    output.stderr.as_str(),
                ),
            )
        },
        None => Err("检查文件的远程进程被信号终止".to_owned()),
    }
}

/// OpenSSH is known by its name in whatever case, wherever it stands in what a program says
/// of itself.
pub proof fn law_openssh_is_known_by_name(version: Seq<char>, i: int)
    ensures
        crate::text::occurs_at(version, "openssh"@, i) ==> is_openssh(version),
        crate::text::occurs_at(version, "OpenSSH"@, i) ==> is_openssh(version),
        crate::text::occurs_at(version, "OPENSSH"@, i) ==> is_openssh(version),
        is_openssh(version) == is_openssh(crate::text::ascii_lowered(version)),
        is_openssh(version) ==> version.len() >= 7,
{
    reveal_strlit("openssh");
    reveal_strlit("OpenSSH");
    reveal_strlit("OPENSSH");
    let low = crate::text::ascii_lowered(version);
    let n = "openssh"@;
    assert(crate::text::ascii_lowered(n) =~= n);
    assert(crate::text::ascii_lowered("OpenSSH"@) =~= n);
    assert(crate::text::ascii_lowered("OPENSSH"@) =~= n);
    assert(crate::text::ascii_lowered(low) =~= low);
    if 0 <= i && i + 7 <= version.len() {
        let part = version.subrange(i, i + 7);
        assert(low.subrange(i, i + 7) =~= crate::text::ascii_lowered(part));
        if part == n || part == "OpenSSH"@ || part == "OPENSSH"@ {
            assert(crate::text::occurs_at(low, n, i));
        }
    }
    if is_openssh(version) {
        let k = choose|k: int| crate::text::occurs_at(low, n, k);
        assert(k + 7 <= low.len());
    }
}

/// The first program that is OpenSSH is usable, and so is any that says so; one that could
/// not be asked is not.
pub proof fn law_usable_says_openssh(answers: Seq<Option<Vec<u8>>>, i: int)
    ensures
        is_usable(answers, i) <==> 0 <= i < answers.len() && answers[i] is Some && is_openssh(
            crate::outside::utf8::readable(answers[i]->0@),
        ),
{
}

/// A private key is given just when one is configured and its file is there.
pub proof fn law_key_is_given_when_there(key: Option<String>, key_found: bool)
    ensures
        key_found && key is Some && key->0@.len() > 0 ==> crate::text::gives_option(
            key_args(key, key_found),
            "-i"@,
            key->0@,
        ) && key_args(key, key_found).len() == 2,
        !key_found || key is None || key->0@.len() == 0 ==> key_args(key, key_found).len() == 0,
{
    if key_found && key is Some && key->0@.len() > 0 {
        let a = key_args(key, key_found);
        assert(a[0] == "-i"@ && a[1] == key->0@);
    }
}

/// Commands and files go to the host that is configured: its port is given, and the user
/// with the host stands in front of the command, or of the path that a file goes to.
pub proof fn law_calls_go_to_the_host(
    config: SSHConfig,
    key_found: bool,
    command: Seq<char>,
    local_path: Seq<char>,
    remote_path: Seq<char>,
)
    ensures
        crate::text::gives_option(
            ssh_args(config, key_found, command),
            "-p"@,
            crate::number::decimal(config.port as nat),
        ),
        crate::text::gives_option(
            ssh_args(config, key_found, command),
            config.user@ + "@"@ + config.host@,
            command,
        ),
        ssh_args(config, key_found, command).last() == command,
        crate::text::gives_option(
            scp_args(config, key_found, local_path, remote_path),
            "-P"@,
            crate::number::decimal(config.port as nat),
        ),
        crate::text::gives_option(
            scp_args(config, key_found, local_path, remote_path),
            local_path,
            config.user@ + "@"@ + config.host@ + ":"@ + remote_path,
        ),
        key_found && config.private_key_path is Some && config.private_key_path->0@.len() > 0
            ==> crate::text::gives_option(
            ssh_args(config, key_found, command),
            "-i"@,
            config.private_key_path->0@,
        ) && crate::text::gives_option(
            scp_args(config, key_found, local_path, remote_path),
            "-i"@,
            config.private_key_path->0@,
        ),
{
    let a = ssh_args(config, key_found, command);
    let b = scp_args(config, key_found, local_path, remote_path);
    assert(a[0] == "-p"@ && a[1] == crate::number::decimal(config.port as nat));
    assert(b[0] == "-P"@ && b[1] == crate::number::decimal(config.port as nat));
    assert(a[a.len() - 2] == config.user@ + "@"@ + config.host@ && a[a.len() - 1] == command);
    assert(b[b.len() - 2] == local_path && b[b.len() - 1] == config.user@ + "@"@ + config.host@
        + ":"@ + remote_path);
    if key_found && config.private_key_path is Some && config.private_key_path->0@.len() > 0 {
        assert(a[2] == "-i"@ && a[3] == config.private_key_path->0@);
        assert(b[2] == "-i"@ && b[3] == config.private_key_path->0@);
    }
}

/// A file is there just when the command ended well, and not there just when it ended with
/// one; anything else says neither, in words that end with what the host said.
pub proof fn law_found_by_exit_code(r: Result<bool, String>, output: CommandOutput)
    requires
        is_found(r, output),
    ensures
        r == Ok::<bool, String>(true) <==> output.status_code == Some(0i32),
        r == Ok::<bool, String>(false) <==> output.status_code == Some(1i32),
        r is Err && output.status_code is Some ==> r->Err_0@.len() >= output.stderr@.len()
            && r->Err_0@.skip(r->Err_0@.len() - output.stderr@.len()) == output.stderr@,
{
    if r is Err && output.status_code is Some {
        let w = r->Err_0@;
        assert(w.skip(w.len() - output.stderr@.len()) =~= output.stderr@);
    }
}

/// The configuration that is written for a start begins with lines on what each of its
/// settings is for, and says that the private key goes before the password.
pub proof fn law_settings_are_explained()
    ensures
        crate::text::occurs(config_header(), "\n# host: 目标主机IP或域名\n"@),
        crate::text::occurs(config_header(), "\n# port: SSH端口\n"@),
        crate::text::occurs(config_header(), "\n# user: 登录用户名\n"@),
        crate::text::occurs(config_header(), "\n# password: 登录密码\n"@),
        crate::text::occurs(config_header(), "\n# private_key_path: 私钥路径"@),
        crate::text::occurs(config_header(), "则优先使用私钥登录\n\n"@),
        config_header()[0] == '#',
{
    let h = config_header();
    reveal_strlit(
        "# SSH 连接配置\n# host: 目标主机IP或域名\n# port: SSH端口\n# user: 登录用户名\n# password: 登录密码\n# private_key_path: 私钥路径（Windows路径使用单引号包裹）\n# 如果同时设置了 password 和 private_key_path，则优先使用私钥登录\n\n",
    );
    reveal_strlit("\n# host: 目标主机IP或域名\n");
    reveal_strlit("\n# port: SSH端口\n");
    reveal_strlit("\n# user: 登录用户名\n");
    reveal_strlit("\n# password: 登录密码\n");
    reveal_strlit("\n# private_key_path: 私钥路径");
    reveal_strlit("则优先使用私钥登录\n\n");
    let n = "\n# host: 目标主机IP或域名\n"@;
    assert(h.subrange(10, 10int + n.len()) =~= n);
    assert(crate::text::occurs_at(h, n, 10));
    let n = "\n# port: SSH端口\n"@;
    assert(h.subrange(28, 28int + n.len()) =~= n);
    assert(crate::text::occurs_at(h, n, 28));
    let n = "\n# user: 登录用户名\n"@;
    assert(h.subrange(42, 42int + n.len()) =~= n);
    assert(crate::text::occurs_at(h, n, 42));
    let n = "\n# password: 登录密码\n"@;
    assert(h.subrange(56, 56int + n.len()) =~= n);
    assert(crate::text::occurs_at(h, n, 56));
    let n = "\n# private_key_path: 私钥路径"@;
    assert(h.subrange(73, 73int + n.len()) =~= n);
    assert(crate::text::occurs_at(h, n, 73));
    let n = "则优先使用私钥登录\n\n"@;
    assert(h.subrange(155, 155int + n.len()) =~= n);
    assert(crate::text::occurs_at(h, n, 155));
}

}

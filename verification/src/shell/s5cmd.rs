//! Objects in the store by way of `s5cmd` on the remote host.
use crate::number::signed_decimal_of;
use crate::shell::remote::Config;
use crate::shell::ssh::CommandOutput;
use crate::text::{cat2, cat3, cat4, contains, trim};
use vstd::prelude::*;

verus! {

/// The command that runs `s5cmd`.
pub open spec fn s5cmd_text(
    access_key_id: Seq<char>,
    secret_access_key: Seq<char>,
    endpoint: Seq<char>,
    args: Seq<char>,
) -> Seq<char> {
    "AWS_ACCESS_KEY_ID="@ + access_key_id + " AWS_SECRET_ACCESS_KEY="@ + secret_access_key
        + " AWS_REGION='auto' ~/.local/bin/s5cmd --endpoint-url "@ + endpoint + " "@ + args
}

/// `r` is the command that runs `s5cmd`, or the first thing that the configuration lacks
/// for it.
pub open spec fn is_s5cmd(r: Result<String, String>, config: Config, args: Seq<char>) -> bool {
    match config.access_key_id {
        None => r matches Err(e) && e@ == "配置文件中未找到 access_key_id"@,
        Some(id) => match config.secret_access_key {
            None => r matches Err(e) && e@ == "配置文件中未找到 secret_access_key"@,
            Some(secret) => match config.endpoint {
                None => r matches Err(e) && e@ == "配置文件中未找到 endpoint"@,
                Some(endpoint) => r matches Ok(command) && command@ == s5cmd_text(
                    id@,
                    secret@,
                    endpoint@,
                    args,
                ),
            },
        },
    }
}

/// Writes the command that runs `s5cmd`.
pub fn run_s5cmd(config: &Config, args: &str) -> (r: Result<String, String>)
    ensures
        is_s5cmd(r, *config, args@),
{
    match &config.access_key_id {
        None => Err("配置文件中未找到 access_key_id".to_owned()),
        Some(id) => match &config.secret_access_key {
            None => Err("配置文件中未找到 secret_access_key".to_owned()),
            Some(secret) => match &config.endpoint {
                None => Err("配置文件中未找到 endpoint".to_owned()),
                Some(endpoint) => {
                    let mut out = cat4(
                        "AWS_ACCESS_KEY_ID=",
                        id.as_str(),
                        " AWS_SECRET_ACCESS_KEY=",
                        secret.as_str(),
                    );
                    out.append(" AWS_REGION='auto' ~/.local/bin/s5cmd --endpoint-url ");
                    out.append(endpoint.as_str());
                    out.append(" ");
                    out.append(args);
                    Ok(out)
                },
            },
        },
    }
}

/// Lists: the arguments.
pub fn ls_args(path: &str) -> (r: String)
    ensures
        r@ == "ls "@ + path@,
{
    cat2("ls ", path)
}

/// Copies a file into the store: the arguments.
pub fn cp_args(local_path: &str, s3_path: &str) -> (r: String)
    ensures
        r@ == "cp "@ + local_path@ + " s3://"@ + s3_path@,
{
    cat4("cp ", local_path, " s3://", s3_path)
}

/// Deletes an object: the arguments.
pub fn rm_args(s3_path: &str) -> (r: String)
    ensures
        r@ == "rm s3://"@ + s3_path@,
{
    cat2("rm s3://", s3_path)
}

/// Makes a bucket: the arguments.
pub fn mb_args(bucket_name: &str) -> (r: String)
    ensures
        r@ == "mb s3://"@ + bucket_name@,
{
    cat2("mb s3://", bucket_name)
}

/// Deletes a bucket: the arguments.
pub fn rb_args(bucket_name: &str) -> (r: String)
    ensures
        r@ == "rb s3://"@ + bucket_name@,
{
    cat2("rb s3://", bucket_name)
}

/// `words` stands in what was put out for errors.
pub open spec fn mentions(output: CommandOutput, words: Seq<char>) -> bool {
    crate::text::occurs(output.stderr@, words)
}

/// `r` is the outcome of a run that ended in another way than well or with code one: the
/// words for it.
pub open spec fn is_other_end(r: Result<String, String>, output: CommandOutput, verb: Seq<char>) -> bool {
    match output.status_code {
        Some(code) => r matches Err(e) && e@ == "s5cmd "@ + verb + " 命令失败 (退出码: "@
            + crate::number::signed_decimal(code as int) + "): "@ + crate::text::trimmed(
            output.stderr@,
        ),
        None => r matches Err(e) && e@ == "s5cmd "@ + verb + " 进程被信号终止"@,
    }
}

fn other_end(output: &CommandOutput, verb: &str) -> (r: String)
    ensures
        is_other_end(Err(r), *output, verb@),
{
    match output.status_code {
        Some(code) => {
            let mut out = cat4(
                "s5cmd ",
                verb,
                " 命令失败 (退出码: ",
                signed_decimal_of(code).as_str(),
            );
            out.append("): ");
            out.append(trim(output.stderr.as_str()).as_str());
            out
        },
        None => cat3("s5cmd ", verb, " 进程被信号终止"),
    }
}

/// `r` is an error with these words.
pub open spec fn errs(r: Result<String, String>, words: Seq<char>) -> bool {
    r matches Err(e) && e@ == words
}

/// `r` is the outcome of a listing.
pub open spec fn is_ls(r: Result<String, String>, path: Seq<char>, output: CommandOutput) -> bool {
    if output.status_code == Some(0i32) {
        r matches Ok(text) && text@ == output.stdout@
    } else if output.status_code == Some(1i32) {
        if mentions(output, "NoSuchBucket"@) || mentions(output, "does not exist"@) {
            errs(r, "存储桶或路径不存在: "@ + path)
        } else if mentions(output, "AccessDenied"@) {
            errs(r, "访问被拒绝，请检查访问凭证和权限"@)
        } else {
            errs(r, "列出目录失败: "@ + crate::text::trimmed(output.stderr@))
        }
    } else {
        is_other_end(r, output, "ls"@)
    }
}

/// Judges a listing: what is there.
pub fn s5cmd_ls(path: &str, output: &CommandOutput) -> (r: Result<String, String>)
    ensures
        is_ls(r, path@, *output),
{
    let err = output.stderr.as_str();
    match output.status_code {
        Some(0) => Ok(output.stdout.clone()),
        Some(1) => if contains(err, "NoSuchBucket") || contains(err, "does not exist") {
            Err(cat2("存储桶或路径不存在: ", path))
        } else if contains(err, "AccessDenied") {
            Err("访问被拒绝，请检查访问凭证和权限".to_owned())
        } else {
            Err(cat2("列出目录失败: ", trim(err).as_str()))
        },
        _ => Err(other_end(output, "ls")),
    }
}

/// `r` is the outcome of a copy.
pub open spec fn is_cp(
    r: Result<String, String>,
    local_path: Seq<char>,
    s3_path: Seq<char>,
    output: CommandOutput,
) -> bool {
    if output.status_code == Some(0i32) {
        r matches Ok(text) && text@ == output.stdout@
    } else if output.status_code == Some(1i32) {
        if mentions(output, "NoSuchBucket"@) {
            errs(r, "目标存储桶不存在: "@ + s3_path)
        } else if mentions(output, "AccessDenied"@) {
            errs(r, "访问被拒绝，请检查上传权限"@)
        } else if mentions(output, "no such file"@) {
            errs(r, "本地文件不存在: "@ + local_path)
        } else {
            errs(r, "上传文件失败: "@ + crate::text::trimmed(output.stderr@))
        }
    } else {
        is_other_end(r, output, "cp"@)
    }
}

/// Judges a copy.
pub fn s5cmd_cp(local_path: &str, s3_path: &str, output: &CommandOutput) -> (r: Result<
    String,
    String,
>)
    ensures
        is_cp(r, local_path@, s3_path@, *output),
{
    let err = output.stderr.as_str();
    match output.status_code {
        Some(0) => Ok(output.stdout.clone()),
        Some(1) => if contains(err, "NoSuchBucket") {
            Err(cat2("目标存储桶不存在: ", s3_path))
        } else if contains(err, "AccessDenied") {
            Err("访问被拒绝，请检查上传权限".to_owned())
        } else if contains(err, "no such file") {
            Err(cat2("本地文件不存在: ", local_path))
        } else {
            Err(cat2("上传文件失败: ", trim(err).as_str()))
        },
        _ => Err(other_end(output, "cp")),
    }
}

/// `r` is the outcome of a deletion.
pub open spec fn is_rm(r: Result<String, String>, s3_path: Seq<char>, output: CommandOutput) -> bool {
    if output.status_code == Some(0i32) {
        r matches Ok(text) && text@ == output.stdout@
    } else if output.status_code == Some(1i32) {
        if mentions(output, "NoSuchKey"@) || mentions(output, "does not exist"@) {
            errs(r, "要删除的文件不存在: "@ + s3_path)
        } else if mentions(output, "NoSuchBucket"@) {
            errs(r, "存储桶不存在: "@ + s3_path)
        } else if mentions(output, "AccessDenied"@) {
            errs(r, "访问被拒绝，请检查删除权限"@)
        } else {
            errs(r, "删除文件失败: "@ + crate::text::trimmed(output.stderr@))
        }
    } else {
        is_other_end(r, output, "rm"@)
    }
}

/// Judges a deletion.
pub fn s5cmd_rm(s3_path: &str, output: &CommandOutput) -> (r: Result<String, String>)
    ensures
        is_rm(r, s3_path@, *output),
{
    let err = output.stderr.as_str();
    match output.status_code {
        Some(0) => Ok(output.stdout.clone()),
        Some(1) => if contains(err, "NoSuchKey") || contains(err, "does not exist") {
            Err(cat2("要删除的文件不存在: ", s3_path))
        } else if contains(err, "NoSuchBucket") {
            Err(cat2("存储桶不存在: ", s3_path))
        } else if contains(err, "AccessDenied") {
            Err("访问被拒绝，请检查删除权限".to_owned())
        } else {
            Err(cat2("删除文件失败: ", trim(err).as_str()))
        },
        _ => Err(other_end(output, "rm")),
    }
}

/// `r` is the outcome of the making of a bucket.
pub open spec fn is_mb(r: Result<String, String>, bucket_name: Seq<char>, output: CommandOutput) -> bool {
    if output.status_code == Some(0i32) {
        r matches Ok(text) && text@ == output.stdout@
    } else if output.status_code == Some(1i32) {
        if mentions(output, "BucketAlreadyExists"@) || mentions(output, "already exists"@) {
            errs(r, "存储桶已存在: "@ + bucket_name)
        } else if mentions(output, "AccessDenied"@) {
            errs(r, "访问被拒绝，请检查创建存储桶的权限"@)
        } else if mentions(output, "InvalidBucketName"@) {
            errs(r, "存储桶名称无效: "@ + bucket_name)
        } else {
            errs(r, "创建存储桶失败: "@ + crate::text::trimmed(output.stderr@))
        }
    } else {
        is_other_end(r, output, "mb"@)
    }
}

/// Judges the making of a bucket.
pub fn s5cmd_mb(bucket_name: &str, output: &CommandOutput) -> (r: Result<String, String>)
    ensures
        is_mb(r, bucket_name@, *output),
{
    let err = output.stderr.as_str();
    match output.status_code {
        Some(0) => Ok(output.stdout.clone()),
        Some(1) => if contains(err, "BucketAlreadyExists") || contains(err, "already exists") {
            Err(cat2("存储桶已存在: ", bucket_name))
        } else if contains(err, "AccessDenied") {
            Err("访问被拒绝，请检查创建存储桶的权限".to_owned())
        } else if contains(err, "InvalidBucketName") {
            Err(cat2("存储桶名称无效: ", bucket_name))
        } else {
            Err(cat2("创建存储桶失败: ", trim(err).as_str()))
        },
        _ => Err(other_end(output, "mb")),
    }
}

/// `r` is the outcome of the deletion of a bucket.
pub open spec fn is_rb(r: Result<String, String>, bucket_name: Seq<char>, output: CommandOutput) -> bool {
    if output.status_code == Some(0i32) {
        r matches Ok(text) && text@ == output.stdout@
    } else if output.status_code == Some(1i32) {
        if mentions(output, "NoSuchBucket"@) || mentions(output, "does not exist"@) {
            errs(r, "存储桶不存在: "@ + bucket_name)
        } else if mentions(output, "BucketNotEmpty"@) || mentions(output, "not empty"@) {
            errs(
                r,
                "存储桶不为空，无法删除: "@ + bucket_name
                    + "。请先清空存储桶中的所有文件"@,
            )
        } else if mentions(output, "AccessDenied"@) {
            errs(r, "访问被拒绝，请检查删除存储桶的权限"@)
        } else {
            errs(r, "删除存储桶失败: "@ + crate::text::trimmed(output.stderr@))
        }
    } else {
        is_other_end(r, output, "rb"@)
    }
}

/// Judges the deletion of a bucket.
pub fn s5cmd_rb(bucket_name: &str, output: &CommandOutput) -> (r: Result<String, String>)
    ensures
        is_rb(r, bucket_name@, *output),
{
    let err = output.stderr.as_str();
    match output.status_code {
        Some(0) => Ok(output.stdout.clone()),
        Some(1) => if contains(err, "NoSuchBucket") || contains(err, "does not exist") {
            Err(cat2("存储桶不存在: ", bucket_name))
        } else if contains(err, "BucketNotEmpty") || contains(err, "not empty") {
            Err(
                cat3(
                    "存储桶不为空，无法删除: ",
                    bucket_name,
                    "。请先清空存储桶中的所有文件",
                ),
            )
        } else if contains(err, "AccessDenied") {
            Err("访问被拒绝，请检查删除存储桶的权限".to_owned())
        } else {
            Err(cat2("删除存储桶失败: ", trim(err).as_str()))
        },
        _ => Err(other_end(output, "rb")),
    }
}

/// Where `s5cmd` is on the remote host.
pub const S5CMD_PATH: &'static str = "~/.local/bin/s5cmd";

/// The commands that unpack `s5cmd` once its archive was copied.
pub open spec fn install_list() -> Seq<Seq<char>> {
    seq![
        "mkdir -p ~/.local/bin"@,
        "tar -xzf ~/s5cmd.tar.gz -C ~/.local/bin s5cmd"@,
        "chmod +x ~/.local/bin/s5cmd"@,
        "rm ~/s5cmd.tar.gz"@,
    ]
}

/// Writes the commands that unpack `s5cmd`.
pub fn install_commands() -> (r: Vec<String>)
    ensures
        crate::text::views(r@) == install_list(),
{
    let mut out: Vec<String> = Vec::new();
    out.push("mkdir -p ~/.local/bin".to_owned());
    out.push("tar -xzf ~/s5cmd.tar.gz -C ~/.local/bin s5cmd".to_owned());
    out.push("chmod +x ~/.local/bin/s5cmd".to_owned());
    out.push("rm ~/s5cmd.tar.gz".to_owned());
    assert(crate::text::views(out@) =~= install_list());
    out
}

/// What to do about `s5cmd`.
#[derive(Debug, Clone, Copy, PartialEq, Eq, Structural)]
pub enum S5cmdStep {
    /// It is there: show its version.
    ShowVersion,
    /// Fetch it, copy it, unpack it, and look again.
    Install,
    /// It could not be installed.
    Fail,
}

/// Decides what to do about `s5cmd`: it is installed once when it is not there.
pub fn check_s5cmd(found: bool, installed: bool) -> (r: S5cmdStep)
    ensures
        r == if found {
            S5cmdStep::ShowVersion
        } else if installed {
            S5cmdStep::Fail
        } else {
            S5cmdStep::Install
        },
{
    if found {
        S5cmdStep::ShowVersion
    } else if installed {
        S5cmdStep::Fail
    } else {
        S5cmdStep::Install
    }
}

/// The store is reached with what is configured: a command comes just when the endpoint and
/// both keys are, holds each of them behind its name, and ends with the arguments.
pub proof fn law_s5cmd_is_given_the_store(
    r: Result<String, String>,
    config: Config,
    args: Seq<char>,
)
    requires
        is_s5cmd(r, config, args),
    ensures
        r is Ok <==> config.access_key_id is Some && config.secret_access_key is Some
            && config.endpoint is Some,
        r is Ok ==> crate::text::occurs(
            r->Ok_0@,
            "AWS_ACCESS_KEY_ID="@ + config.access_key_id->0@ + " "@,
        ) && crate::text::occurs(
            r->Ok_0@,
            " AWS_SECRET_ACCESS_KEY="@ + config.secret_access_key->0@ + " "@,
        ) && crate::text::occurs(
            r->Ok_0@,
            " "@ + S5CMD_PATH@ + " --endpoint-url "@ + config.endpoint->0@ + " "@ + args,
        ) && r->Ok_0@.skip(r->Ok_0@.len() - args.len()) == args,
{
    if r is Ok {
        let id = config.access_key_id->0@;
        let secret = config.secret_access_key->0@;
        let endpoint = config.endpoint->0@;
        let w = r->Ok_0@;
        reveal_strlit("AWS_ACCESS_KEY_ID=");
        reveal_strlit(" AWS_SECRET_ACCESS_KEY=");
        reveal_strlit(" AWS_REGION='auto' ~/.local/bin/s5cmd --endpoint-url ");
        reveal_strlit("~/.local/bin/s5cmd");
        reveal_strlit(" --endpoint-url ");
        reveal_strlit(" ");
        let n = "AWS_ACCESS_KEY_ID="@ + id + " "@;
        assert(w.subrange(0, n.len() as int) =~= n);
        assert(crate::text::occurs_at(w, n, 0));
        let n2 = " AWS_SECRET_ACCESS_KEY="@ + secret + " "@;
        let k = n.len() - 1;
        assert(w.subrange(k, k + n2.len()) =~= n2);
        assert(crate::text::occurs_at(w, n2, k));
        let n3 = " "@ + S5CMD_PATH@ + " --endpoint-url "@ + endpoint + " "@ + args;
        let k3 = w.len() - n3.len();
        assert(w.subrange(k3, k3 + n3.len()) =~= n3);
        assert(crate::text::occurs_at(w, n3, k3));
        assert(w.skip(w.len() - args.len()) =~= args);
    }
}

/// `s5cmd` is installed where it is run from: it is unpacked there, made to run, and its
/// archive taken away.
pub proof fn law_s5cmd_is_installed_where_it_runs()
    ensures
        install_list().len() == 4,
        crate::text::occurs(install_list()[1], "s5cmd.tar.gz -C ~/.local/bin s5cmd"@),
        S5CMD_PATH@ == "~/.local/bin"@ + "/s5cmd"@,
        install_list()[0] == "mkdir -p "@ + "~/.local/bin"@,
        install_list()[2] == "chmod +x "@ + S5CMD_PATH@,
        install_list()[3] == "rm "@ + "~/s5cmd.tar.gz"@,
{
    reveal_strlit("mkdir -p ~/.local/bin");
    reveal_strlit("tar -xzf ~/s5cmd.tar.gz -C ~/.local/bin s5cmd");
    reveal_strlit("chmod +x ~/.local/bin/s5cmd");
    reveal_strlit("rm ~/s5cmd.tar.gz");
    reveal_strlit("s5cmd.tar.gz -C ~/.local/bin s5cmd");
    reveal_strlit("~/.local/bin");
    reveal_strlit("/s5cmd");
    reveal_strlit("~/.local/bin/s5cmd");
    reveal_strlit("mkdir -p ");
    reveal_strlit("chmod +x ");
    reveal_strlit("rm ");
    reveal_strlit("~/s5cmd.tar.gz");
    let w = "tar -xzf ~/s5cmd.tar.gz -C ~/.local/bin s5cmd"@;
    let n = "s5cmd.tar.gz -C ~/.local/bin s5cmd"@;
    assert(w.subrange(11, 11int + n.len()) =~= n);
    assert(crate::text::occurs_at(w, n, 11));
    assert(S5CMD_PATH@ =~= "~/.local/bin"@ + "/s5cmd"@);
    assert(install_list()[0] =~= "mkdir -p "@ + "~/.local/bin"@);
    assert(install_list()[2] =~= "chmod +x "@ + S5CMD_PATH@);
    assert(install_list()[3] =~= "rm "@ + "~/s5cmd.tar.gz"@);
}

/// A run of `s5cmd` succeeds just when it ended well, and gives what it put out; every other
/// end is an error, and one for which nothing better is known ends with what it said.
pub proof fn law_s5cmd_outcome_is_told(
    r: Result<String, String>,
    path: Seq<char>,
    local_path: Seq<char>,
    output: CommandOutput,
)
    requires
        is_ls(r, path, output) || is_cp(r, local_path, path, output) || is_rm(r, path, output)
            || is_mb(r, path, output) || is_rb(r, path, output),
    ensures
        r is Ok <==> output.status_code == Some(0i32),
        r matches Ok(text) ==> text@ == output.stdout@,
        output.status_code is Some && output.status_code != Some(0i32) && output.status_code
            != Some(1i32) ==> crate::text::closes_with(r->Err_0@, crate::text::trimmed(output.stderr@)),
{
    if output.status_code is Some && output.status_code != Some(0i32) && output.status_code != Some(
        1i32,
    ) {
        let t = crate::text::trimmed(output.stderr@);
        let w = r->Err_0@;
        crate::text::law_closes_with_its_end(w.take(w.len() - t.len()), t);
        assert(w =~= w.take(w.len() - t.len()) + t);
    }
}

/// A bucket or path that is not there is named at the end of the words, in whichever way the
/// store says so; and so is a local file that is not there, and a bucket that is there
/// already or whose name is none. A bucket that is not empty is named in the words.
pub proof fn law_s5cmd_failure_is_named(
    r: Result<String, String>,
    path: Seq<char>,
    local_path: Seq<char>,
    output: CommandOutput,
)
    requires
        output.status_code == Some(1i32),
    ensures
        (mentions(output, "NoSuchBucket"@) || mentions(output, "does not exist"@)) && is_ls(
            r,
            path,
            output,
        ) ==> crate::text::closes_with(r->Err_0@, path),
        mentions(output, "NoSuchBucket"@) && is_cp(r, local_path, path, output)
            ==> crate::text::closes_with(r->Err_0@, path),
        (mentions(output, "NoSuchKey"@) || mentions(output, "does not exist"@) || mentions(
            output,
            "NoSuchBucket"@,
        )) && is_rm(r, path, output) ==> crate::text::closes_with(r->Err_0@, path),
        (mentions(output, "BucketAlreadyExists"@) || mentions(output, "already exists"@))
            && is_mb(r, path, output) ==> crate::text::closes_with(r->Err_0@, path),
        mentions(output, "InvalidBucketName"@) && !mentions(output, "AccessDenied"@) && is_mb(
            r,
            path,
            output,
        ) ==> crate::text::closes_with(r->Err_0@, path),
        (mentions(output, "NoSuchBucket"@) || mentions(output, "does not exist"@)) && is_rb(
            r,
            path,
            output,
        ) ==> crate::text::closes_with(r->Err_0@, path),
        (mentions(output, "BucketNotEmpty"@) || mentions(output, "not empty"@)) && is_rb(
            r,
            path,
            output,
        ) ==> crate::text::occurs(r->Err_0@, path),
        !mentions(output, "NoSuchBucket"@) && !mentions(output, "AccessDenied"@) && mentions(
            output,
            "no such file"@,
        ) && is_cp(r, local_path, path, output) ==> crate::text::closes_with(
            r->Err_0@,
            local_path,
        ),
{
    let none = Seq::<char>::empty();
    crate::text::law_closes_with_its_end("存储桶或路径不存在: "@, path);
    crate::text::law_closes_with_its_end("目标存储桶不存在: "@, path);
    crate::text::law_closes_with_its_end("要删除的文件不存在: "@, path);
    crate::text::law_closes_with_its_end("存储桶已存在: "@, path);
    crate::text::law_closes_with_its_end("存储桶名称无效: "@, path);
    crate::text::law_closes_with_its_end("存储桶不存在: "@, path);
    crate::text::law_closes_with_its_end("本地文件不存在: "@, local_path);
    crate::text::law_part_occurs("存储桶不存在: "@, path, none);
    assert("存储桶不存在: "@ + path + none =~= "存储桶不存在: "@ + path);
    crate::text::law_part_occurs(
        "存储桶不为空，无法删除: "@,
        path,
        "。请先清空存储桶中的所有文件"@,
    );
}

/// A request that was denied is told to be, unless something else is known of it.
pub proof fn law_denied_access_is_told(
    r: Result<String, String>,
    path: Seq<char>,
    local_path: Seq<char>,
    output: CommandOutput,
)
    requires
        output.status_code == Some(1i32),
        mentions(output, "AccessDenied"@),
        !mentions(output, "NoSuchBucket"@),
        !mentions(output, "NoSuchKey"@),
        !mentions(output, "does not exist"@),
        !mentions(output, "BucketAlreadyExists"@),
        !mentions(output, "already exists"@),
        !mentions(output, "BucketNotEmpty"@),
        !mentions(output, "not empty"@),
        is_ls(r, path, output) || is_cp(r, local_path, path, output) || is_rm(r, path, output)
            || is_mb(r, path, output) || is_rb(r, path, output),
    ensures
        r is Err,
        r->Err_0@.take(6) == "访问被拒绝，"@,
{
    reveal_strlit("访问被拒绝，");
    reveal_strlit("访问被拒绝，请检查访问凭证和权限");
    reveal_strlit("访问被拒绝，请检查上传权限");
    reveal_strlit("访问被拒绝，请检查删除权限");
    reveal_strlit("访问被拒绝，请检查创建存储桶的权限");
    reveal_strlit("访问被拒绝，请检查删除存储桶的权限");
    assert(r->Err_0@.take(6) =~= "访问被拒绝，"@);
}

/// A failure of which nothing better is known ends with what `s5cmd` said.
pub proof fn law_unknown_failure_ends_with_what_was_said(
    r: Result<String, String>,
    path: Seq<char>,
    local_path: Seq<char>,
    output: CommandOutput,
)
    requires
        output.status_code == Some(1i32),
        !mentions(output, "AccessDenied"@),
        !mentions(output, "NoSuchBucket"@),
        !mentions(output, "NoSuchKey"@),
        !mentions(output, "does not exist"@),
        !mentions(output, "no such file"@),
        !mentions(output, "BucketAlreadyExists"@),
        !mentions(output, "already exists"@),
        !mentions(output, "InvalidBucketName"@),
        !mentions(output, "BucketNotEmpty"@),
        !mentions(output, "not empty"@),
        is_ls(r, path, output) || is_cp(r, local_path, path, output) || is_rm(r, path, output)
            || is_mb(r, path, output) || is_rb(r, path, output),
    ensures
        r is Err,
        crate::text::closes_with(r->Err_0@, crate::text::trimmed(output.stderr@)),
{
    let t = crate::text::trimmed(output.stderr@);
    crate::text::law_closes_with_its_end("上传文件失败: "@, t);
    crate::text::law_closes_with_its_end("列出目录失败: "@, t);
    crate::text::law_closes_with_its_end("删除文件失败: "@, t);
    crate::text::law_closes_with_its_end("创建存储桶失败: "@, t);
    crate::text::law_closes_with_its_end("删除存储桶失败: "@, t);
}

/// The words for an end that nothing better is known of name what was run; they hold the exit
/// code where there is one, and say that a signal ended it where there is none.
pub proof fn law_other_end_is_told(r: Result<String, String>, output: CommandOutput, verb: Seq<char>)
    requires
        is_other_end(r, output, verb),
    ensures
        r is Err,
        crate::text::occurs(r->Err_0@, "s5cmd "@ + verb),
        output.status_code is None ==> crate::text::closes_with(r->Err_0@, "进程被信号终止"@),
        output.status_code matches Some(code) ==> crate::text::occurs(
            r->Err_0@,
            "退出码: "@ + crate::number::signed_decimal(code as int) + ")"@,
        ),
{
    let w = r->Err_0@;
    let named = "s5cmd "@ + verb;
    match output.status_code {
        Some(code) => {
            let number = crate::number::signed_decimal(code as int);
            let said = crate::text::trimmed(output.stderr@);
            reveal_strlit(" 命令失败 (退出码: ");
            reveal_strlit(" 命令失败 (");
            reveal_strlit("退出码: ");
            reveal_strlit("): ");
            reveal_strlit(")");
            assert(" 命令失败 (退出码: "@ =~= " 命令失败 ("@ + "退出码: "@);
            assert("): "@ =~= ")"@ + "): "@.skip(1));
            let behind = " 命令失败 (退出码: "@ + number + "): "@ + said;
            assert(w =~= Seq::<char>::empty() + named + behind);
            crate::text::law_part_occurs(Seq::empty(), named, behind);
            let before = named + " 命令失败 ("@;
            let part = "退出码: "@ + number + ")"@;
            let rest = "): "@.skip(1) + said;
            assert(w =~= before + part + rest);
            crate::text::law_part_occurs(before, part, rest);
        },
        None => {
            reveal_strlit(" 进程被信号终止");
            reveal_strlit("进程被信号终止");
            assert(" 进程被信号终止"@ =~= " 进程被信号终止"@.take(1) + "进程被信号终止"@);
            assert(w =~= Seq::<char>::empty() + named + " 进程被信号终止"@);
            crate::text::law_part_occurs(Seq::empty(), named, " 进程被信号终止"@);
            let head = named + " 进程被信号终止"@.take(1);
            assert(w =~= head + "进程被信号终止"@);
            crate::text::law_closes_with_its_end(head, "进程被信号终止"@);
        },
    }
}

}

//! Splitting and encrypting a file on the remote host over one lasting `ssh` connection.
use crate::chunk::{sort_chunks, ChunkInfo};
use crate::common::utils::join_path;
use crate::number::{decimal_of, signed_decimal_of};
use crate::outside::integer::{parse_u32, parse_u64};
use crate::outside::shell::shell_quote;
use crate::shell::ssh::{push_key, target_of, CommandOutput};
use crate::text::{cat2, cat3, cat4, cat5, join_with, split, trim};
use vstd::prelude::*;

verus! {

/// The remote host, and the store that the chunks go to.
#[derive(Debug)]
pub struct Config {
    pub host: String,
    pub port: u16,
    pub user: String,
    pub private_key_path: Option<String>,
    pub access_key_id: Option<String>,
    pub secret_access_key: Option<String>,
    pub endpoint: Option<String>,
}

/// The list of all chunks of a file, and how they are encrypted.
#[derive(Debug)]
pub struct ManifestFile {
    pub filename: String,
    pub total_size: u64,
    pub chunk_size: u64,
    pub total_chunks: u32,
    /// The cipher, such as `AES-256-CBC`.
    pub cipher: String,
    /// How keys are derived, such as `PBKDF2-SHA256`.
    pub kdf: String,
    /// How often that is repeated.
    pub kdf_iter: u32,
    /// Bytes of the salt.
    pub salt_len: u32,
    pub chunks: Vec<ChunkInfo>,
}

/// One lasting connection to the remote host.
#[derive(Debug)]
pub struct SSHManager {
    pub control_path: String,
    pub config: Config,
    pub ssh_cmd: String,
    pub master_started: bool,
}

/// Where the socket of the connection is.
pub open spec fn control_socket(temp_dir: Seq<char>, config: Config) -> Seq<char> {
    crate::common::utils::joined(
        temp_dir,
        "ssh_ctrl_"@ + config.user@ + "_"@ + config.host@ + "_"@ + crate::number::decimal(
            config.port as nat,
        ),
    )
}

/// The host as `ssh` wants it.
pub open spec fn target_text(config: Config) -> Seq<char> {
    config.user@ + "@"@ + config.host@
}

impl SSHManager {
    /// A connection that is not open yet.
    pub fn new(temp_dir: &str, config: Config, ssh_cmd: String) -> (r: SSHManager)
        ensures
            r.control_path@ == control_socket(temp_dir@, config),
            r.config == config,
            r.ssh_cmd == ssh_cmd,
            !r.master_started,
    {
        let mut name = cat4("ssh_ctrl_", config.user.as_str(), "_", config.host.as_str());
        name.append("_");
        name.append(decimal_of(config.port as u64).as_str());
        SSHManager {
            control_path: join_path(temp_dir, name.as_str()),
            config,
            ssh_cmd,
            master_started: false,
        }
    }

    fn port_text(&self) -> (r: String)
        ensures
            r@ == crate::number::decimal(self.config.port as nat),
    {
        decimal_of(self.config.port as u64)
    }

    fn target(&self) -> (r: String)
        ensures
            r@ == target_text(self.config),
    {
        target_of(self.config.user.as_str(), self.config.host.as_str())
    }

    /// The arguments that open the connection.
    pub open spec fn master_list(self, key_found: bool) -> Seq<Seq<char>> {
        seq![
            "-M"@,
            "-S"@,
            self.control_path@,
            "-f"@,
            "-N"@,
            "-o"@,
            "ControlPersist=10m"@,
            "-p"@,
            crate::number::decimal(self.config.port as nat),
        ] + crate::shell::ssh::key_args(self.config.private_key_path, key_found) + seq![
            target_text(self.config),
        ]
    }

    /// Writes the arguments that open the connection.
    pub fn master_args(&self, key_found: bool) -> (r: Vec<String>)
        ensures
            crate::text::views(r@) == self.master_list(key_found),
    {
        let mut args: Vec<String> = Vec::new();
        args.push("-M".to_owned());
        args.push("-S".to_owned());
        args.push(self.control_path.clone());
        args.push("-f".to_owned());
        args.push("-N".to_owned());
        args.push("-o".to_owned());
        args.push("ControlPersist=10m".to_owned());
        args.push("-p".to_owned());
        args.push(self.port_text());
        assert(crate::text::views(args@) =~= seq![
            "-M"@,
            "-S"@,
            self.control_path@,
            "-f"@,
            "-N"@,
            "-o"@,
            "ControlPersist=10m"@,
            "-p"@,
            crate::number::decimal(self.config.port as nat),
        ]);
        push_key(&mut args, &self.config.private_key_path, key_found);
        let ghost head = crate::text::views(args@);
        args.push(self.target());
        assert(crate::text::views(args@) =~= head + seq![target_text(self.config)]);
        args
    }

    /// The arguments that tell the connection something: to say whether it is open, or to
    /// close.
    pub open spec fn control_list(self, order: Seq<char>) -> Seq<Seq<char>> {
        seq![
            "-S"@,
            self.control_path@,
            "-p"@,
            crate::number::decimal(self.config.port as nat),
            "-O"@,
            order,
            target_text(self.config),
        ]
    }

    fn control_args(&self, order: &str) -> (r: Vec<String>)
        ensures
            crate::text::views(r@) == self.control_list(order@),
    {
        let mut args: Vec<String> = Vec::new();
        args.push("-S".to_owned());
        args.push(self.control_path.clone());
        args.push("-p".to_owned());
        args.push(self.port_text());
        args.push("-O".to_owned());
        args.push(order.to_owned());
        args.push(self.target());
        assert(crate::text::views(args@) =~= self.control_list(order@));
        args
    }

    /// Writes the arguments that ask whether the connection is open.
    pub fn check_args(&self) -> (r: Vec<String>)
        ensures
            crate::text::views(r@) == self.control_list("check"@),
    {
        self.control_args("check")
    }

    /// Writes the arguments that close the connection.
    pub fn exit_args(&self) -> (r: Vec<String>)
        ensures
            crate::text::views(r@) == self.control_list("exit"@),
    {
        self.control_args("exit")
    }

    /// Takes the end of the opening.
    pub fn master_opened(&mut self, success: bool, stderr: &str) -> (r: Result<(), String>)
        ensures
            r is Ok <==> success,
            *final(self) == (SSHManager {
                master_started: old(self).master_started || success,
                ..*old(self)
            }),
            r matches Err(e) ==> e@ == "SSH master 连接失败: "@ + stderr@,
    {
        if !success {
            return Err(cat2("SSH master 连接失败: ", stderr));
        }
        self.master_started = true;
        Ok(())
    }

    /// Judges whether the connection is open: it must have been opened, and the question
    /// whether it still is must have ended well.
    pub fn ensure_master_connection(&self, success: bool, stderr: &str) -> (r: Result<(), String>)
        ensures
            r is Ok <==> self.master_started && success,
            r matches Err(e) ==> e@ == if !self.master_started {
                "SSH master 连接未建立"@
            } else {
                "SSH master 连接已断开: "@ + stderr@
            },
    {
        if !self.master_started {
            return Err("SSH master 连接未建立".to_owned());
        }
        if !success {
            return Err(cat2("SSH master 连接已断开: ", stderr));
        }
        Ok(())
    }

    /// The arguments of `ssh` for a command.
    pub open spec fn ssh_list(self, command: Seq<char>) -> Seq<Seq<char>> {
        seq![
            "-S"@,
            self.control_path@,
            "-o"@,
            "ControlMaster=auto"@,
            "-p"@,
            crate::number::decimal(self.config.port as nat),
            target_text(self.config),
            command,
        ]
    }

    /// Writes the arguments of `ssh` for a command.
    pub fn ssh(&self, command: &str) -> (r: Vec<String>)
        ensures
            crate::text::views(r@) == self.ssh_list(command@),
    {
        let mut args: Vec<String> = Vec::new();
        args.push("-S".to_owned());
        args.push(self.control_path.clone());
        args.push("-o".to_owned());
        args.push("ControlMaster=auto".to_owned());
        args.push("-p".to_owned());
        args.push(self.port_text());
        args.push(self.target());
        args.push(command.to_owned());
        assert(crate::text::views(args@) =~= self.ssh_list(command@));
        args
    }

    /// The arguments of `scp` for a file.
    pub open spec fn scp_list(
        self,
        key_found: bool,
        local_path: Seq<char>,
        remote_path: Seq<char>,
    ) -> Seq<Seq<char>> {
        seq![
            "-o"@,
            "ControlPath="@ + self.control_path@,
            "-o"@,
            "ControlMaster=auto"@,
            "-P"@,
            crate::number::decimal(self.config.port as nat),
        ] + crate::shell::ssh::key_args(self.config.private_key_path, key_found) + seq![
            local_path,
            target_text(self.config) + ":"@ + remote_path,
        ]
    }

    /// Writes the arguments of `scp` for a file.
    pub fn scp(&self, key_found: bool, local_path: &str, remote_path: &str) -> (r: Vec<String>)
        ensures
            crate::text::views(r@) == self.scp_list(key_found, local_path@, remote_path@),
    {
        let mut args: Vec<String> = Vec::new();
        args.push("-o".to_owned());
        args.push(cat2("ControlPath=", self.control_path.as_str()));
        args.push("-o".to_owned());
        args.push("ControlMaster=auto".to_owned());
        args.push("-P".to_owned());
        args.push(self.port_text());
        assert(crate::text::views(args@) =~= seq![
            "-o"@,
            "ControlPath="@ + self.control_path@,
            "-o"@,
            "ControlMaster=auto"@,
            "-P"@,
            crate::number::decimal(self.config.port as nat),
        ]);
        push_key(&mut args, &self.config.private_key_path, key_found);
        let ghost head = crate::text::views(args@);
        args.push(local_path.to_owned());
        args.push(cat3(self.target().as_str(), ":", remote_path));
        assert(crate::text::views(args@) =~= head + seq![
            local_path@,
            target_text(self.config) + ":"@ + remote_path@,
        ]);
        args
    }
}

/// Keeps the connection. There can be only one.
pub fn ssh_connect(global: &mut Option<SSHManager>, manager: SSHManager) -> (r: Result<(), String>)
    ensures
        r is Ok <==> *old(global) is None,
        *final(global) == if r is Ok {
            Some(manager)
        } else {
            *old(global)
        },
        r matches Err(e) ==> e@ == "SSH管理器已经初始化"@,
{
    if global.is_some() {
        return Err("SSH管理器已经初始化".to_owned());
    }
    *global = Some(manager);
    Ok(())
}

/// Why a command cannot go over the connection, if it cannot: it must have been set up
/// and opened, and the question whether it still is open must have ended well.
pub open spec fn refusal(global: Option<SSHManager>, success: bool, stderr: Seq<char>) -> Option<
    Seq<char>,
> {
    match global {
        None => Some("SSH连接未初始化，请先调用 check_ssh_connection()"@),
        Some(manager) => if !manager.master_started {
            Some("SSH master 连接未建立"@)
        } else if !success {
            Some("SSH master 连接已断开: "@ + stderr)
        } else {
            None
        },
    }
}

/// The arguments that ask whether the connection is open, when it was set up and opened.
pub fn check_connection(global: &Option<SSHManager>) -> (r: Result<Vec<String>, String>)
    ensures
        r is Ok <==> refusal(*global, true, Seq::empty()) is None,
        r matches Ok(args) ==> crate::text::views(args@) == global->0.control_list("check"@),
        r matches Err(e) ==> refusal(*global, true, Seq::empty()) == Some(e@),
{
    match global {
        None => Err("SSH连接未初始化，请先调用 check_ssh_connection()".to_owned()),
        Some(manager) => match manager.ensure_master_connection(true, "") {
            Ok(_) => Ok(manager.check_args()),
            Err(e) => Err(e),
        },
    }
}

/// The arguments of `ssh` for a command over the connection. The question whether the
/// connection is open ended with `success` and `stderr`; where it is not, there is
/// nothing to run.
pub fn ssh_run(global: &Option<SSHManager>, success: bool, stderr: &str, command: &str) -> (r: Result<
    Vec<String>,
    String,
>)
    ensures
        r is Ok <==> refusal(*global, success, stderr@) is None,
        r matches Ok(args) ==> crate::text::views(args@) == global->0.ssh_list(command@),
        r matches Err(e) ==> refusal(*global, success, stderr@) == Some(e@),
{
    match global {
        None => Err("SSH连接未初始化，请先调用 check_ssh_connection()".to_owned()),
        Some(manager) => match manager.ensure_master_connection(success, stderr) {
            Ok(_) => Ok(manager.ssh(command)),
            Err(e) => Err(e),
        },
    }
}

/// The arguments of `scp` for a file over the connection. The question whether the
/// connection is open ended with `success` and `stderr`; where it is not, there is
/// nothing to run.
pub fn scp(
    global: &Option<SSHManager>,
    success: bool,
    stderr: &str,
    key_found: bool,
    local_path: &str,
    remote_path: &str,
) -> (r: Result<Vec<String>, String>)
    ensures
        r is Ok <==> refusal(*global, success, stderr@) is None,
        r matches Ok(args) ==> crate::text::views(args@) == global->0.scp_list(
            key_found,
            local_path@,
            remote_path@,
        ),
        r matches Err(e) ==> refusal(*global, success, stderr@) == Some(e@),
{
    match global {
        None => Err("SSH连接未初始化，请先调用 check_ssh_connection()".to_owned()),
        Some(manager) => match manager.ensure_master_connection(success, stderr) {
            Ok(_) => Ok(manager.scp(key_found, local_path, remote_path)),
            Err(e) => Err(e),
        },
    }
}

/// Mebibytes of the file in a chunk.
pub const CHUNK_SIZE_MB: u64 = 10;

/// Bytes of the file in a chunk.
pub const CHUNK_SIZE: u64 = 10_485_760;

/// How often the derivation of a key is repeated.
pub const KDF_ITER: u32 = 200_000;

/// Why a line about a chunk cannot be read.
#[derive(Debug, Clone, Copy, PartialEq, Eq, Structural)]
pub enum LineFault {
    /// It does not have five parts.
    Format,
    /// The first part is not a number of a chunk.
    Id,
    /// The last part is not a size.
    Size,
}

/// A line about a chunk that cannot be read.
#[derive(Debug)]
pub struct LineError {
    pub line: String,
    pub fault: LineFault,
    /// For a part that is not a number, the words of who tried to read it.
    pub words: String,
}

impl LineError {
    /// The error in words.
    pub open spec fn message(self) -> Seq<char> {
        match self.fault {
            LineFault::Format => "分块信息格式错误: "@ + self.line@,
            _ => self.words@,
        }
    }

    /// Puts the error in words.
    pub fn text(&self) -> (r: String)
        ensures
            r@ == self.message(),
    {
        match self.fault {
            LineFault::Format => cat2("分块信息格式错误: ", self.line.as_str()),
            _ => self.words.clone(),
        }
    }
}

/// Why `line` cannot be read, if it cannot: it must hold a number, a file name, a
/// passphrase, a digest and a size, with bars between them.
pub open spec fn fault_of(line: Seq<char>) -> Option<LineFault> {
    let parts = crate::text::pieces(line, '|');
    if parts.len() != 5 {
        Some(LineFault::Format)
    } else if crate::number::unsigned_value(parts[0]) is None || crate::number::unsigned_value(
        parts[0],
    )->0 > u32::MAX {
        Some(LineFault::Id)
    } else if crate::number::unsigned_value(parts[4]) is None || crate::number::unsigned_value(
        parts[4],
    )->0 > u64::MAX {
        Some(LineFault::Size)
    } else {
        None
    }
}

/// `info` is what `line` says.
pub open spec fn says(line: Seq<char>, info: ChunkInfo) -> bool {
    let parts = crate::text::pieces(line, '|');
    &&& fault_of(line) is None
    &&& crate::number::unsigned_value(parts[0]) == Some(info.id as nat)
    &&& info.filename@ == parts[1]
    &&& info.passphrase_b64@ == parts[2]
    &&& info.sha256@ == parts[3]
    &&& crate::number::unsigned_value(parts[4]) == Some(info.size as nat)
}

/// Reads a line about a chunk.
pub fn parse_line(line: &str) -> (r: Result<ChunkInfo, LineError>)
    ensures
        match r {
            Ok(info) => says(line@, info),
            Err(e) => e.line@ == line@ && fault_of(line@) == Some(e.fault),
        },
{
    let parts = split(line, '|');
    let ghost texts = crate::text::pieces(line@, '|');
    assert(crate::text::views(parts@) == texts);
    assert(parts@.len() == texts.len());
    if parts.len() != 5 {
        return Err(
            LineError { line: line.to_owned(), fault: LineFault::Format, words: String::new() },
        );
    }
    assert(forall|i: int| 0 <= i < 5 ==> crate::text::views(parts@)[i] == #[trigger] parts@[i]@);
    let id: u32 = match parse_u32(parts[0].as_str()) {
        Ok(n) => n,
        Err(words) => {
            return Err(LineError { line: line.to_owned(), fault: LineFault::Id, words });
        },
    };
    let size: u64 = match parse_u64(parts[4].as_str()) {
        Ok(n) => n,
        Err(words) => {
            return Err(LineError { line: line.to_owned(), fault: LineFault::Size, words });
        },
    };
    Ok(
        ChunkInfo {
            id,
            filename: parts[1].clone(),
            passphrase_b64: parts[2].clone(),
            sha256: parts[3].clone(),
            size,
        },
    )
}

/// `lines` without the white space around each, and without those that hold nothing else.
pub open spec fn kept(lines: Seq<Seq<char>>) -> Seq<Seq<char>>
    decreases lines.len(),
{
    if lines.len() == 0 {
        Seq::empty()
    } else {
        let text = crate::text::trimmed(lines.last());
        if text.len() == 0 {
            kept(lines.drop_last())
        } else {
            kept(lines.drop_last()).push(text)
        }
    }
}

/// The lines of an output that hold anything.
pub open spec fn content_lines(output: Seq<char>) -> Seq<Seq<char>> {
    kept(crate::text::pieces(output, '\n'))
}

/// Finds the lines of an output that hold anything.
pub fn lines_of(output: &str) -> (r: Vec<String>)
    ensures
        crate::text::views(r@) == content_lines(output@),
{
    let lines = split(output, '\n');
    let ghost texts = crate::text::views(lines@);
    let mut out: Vec<String> = Vec::new();
    assert(texts.take(0) =~= Seq::empty());
    for i in 0..lines.len()
        invariant
            texts == crate::text::views(lines@),
            crate::text::views(out@) == kept(texts.take(i as int)),
    {
        let text = trim(lines[i].as_str());
        let ghost before = crate::text::views(out@);
        proof {
            assert(texts.take(i + 1).drop_last() == texts.take(i as int));
            assert(texts.take(i + 1).last() == lines@[i as int]@);
        }
        if !text.as_str().is_empty() {
            let ghost t = text@;
            out.push(text);
            assert(crate::text::views(out@) =~= before.push(t));
        }
    }
    assert(texts.take(lines@.len() as int) == texts);
    out
}

/// Line by line, `chunks` is what `lines` say.
pub open spec fn all_say(lines: Seq<Seq<char>>, chunks: Seq<ChunkInfo>) -> bool {
    &&& chunks.len() == lines.len()
    &&& forall|i: int| 0 <= i < lines.len() ==> says(lines[i], #[trigger] chunks[i])
}

/// Line `i` is the first that cannot be read.
pub open spec fn first_fault_at(lines: Seq<Seq<char>>, i: int) -> bool {
    &&& 0 <= i < lines.len()
    &&& fault_of(lines[i]) is Some
    &&& forall|j: int| 0 <= j < i ==> fault_of(#[trigger] lines[j]) is None
}

/// Reads the lines about the chunks that the remote host put out.
pub fn parse_chunks(output: &str) -> (r: Result<Vec<ChunkInfo>, LineError>)
    ensures
        match r {
            Ok(chunks) => all_say(content_lines(output@), chunks@),
            Err(e) => exists|i: int| #[trigger]
                first_fault_at(content_lines(output@), i) && e.line@ == content_lines(output@)[i]
                    && fault_of(content_lines(output@)[i]) == Some(e.fault),
        },
{
    let lines = lines_of(output);
    let ghost texts = content_lines(output@);
    let mut chunks: Vec<ChunkInfo> = Vec::new();
    for i in 0..lines.len()
        invariant
            texts == crate::text::views(lines@),
            texts == content_lines(output@),
            all_say(texts.take(i as int), chunks@),
    {
        assert(texts[i as int] == lines@[i as int]@);
        match parse_line(lines[i].as_str()) {
            Ok(info) => {
                let ghost before = chunks@;
                chunks.push(info);
                proof {
                    let done = texts.take(i + 1);
                    assert forall|k: int| 0 <= k < done.len() implies says(
                        done[k],
                        #[trigger] chunks@[k],
                    ) by {
                        if k < i {
                            assert(says(texts.take(i as int)[k], before[k]));
                        }
                    }
                }
            },
            Err(e) => {
                proof {
                    assert forall|j: int| 0 <= j < i implies fault_of(
                        #[trigger] texts[j],
                    ) is None by {
                        assert(says(texts.take(i as int)[j], chunks@[j]));
                    }
                    assert(first_fault_at(texts, i as int));
                }
                return Err(e);
            },
        }
    }
    assert(texts.take(lines@.len() as int) == texts);
    Ok(chunks)
}

/// How many chunks a file takes.
pub fn chunks_of(file_size: u64) -> (r: u64)
    requires
        file_size + CHUNK_SIZE <= u64::MAX,
    ensures
        r == crate::number::chunk_count(file_size as nat, CHUNK_SIZE as nat),
{
    (file_size + CHUNK_SIZE - 1) / CHUNK_SIZE
}

/// `m` is the manifest of a file of this name and size with the chunks `chunks`: they
/// stand in it in the order of their numbers.
pub open spec fn is_manifest(
    m: ManifestFile,
    file_name: Seq<char>,
    file_size: u64,
    chunks: Seq<ChunkInfo>,
) -> bool {
    &&& m.filename@ == file_name
    &&& m.total_size == file_size
    &&& m.chunk_size == CHUNK_SIZE
    &&& m.total_chunks == (crate::number::chunk_count(
        file_size as nat,
        CHUNK_SIZE as nat,
    ) as u64) as u32
    &&& m.cipher@ == "AES-256-CBC"@
    &&& m.kdf@ == "PBKDF2-SHA256"@
    &&& m.kdf_iter == KDF_ITER
    &&& m.salt_len == 8
    &&& m.chunks@ == crate::chunk::in_order(chunks)
}

/// Makes the manifest of a file from what the remote host put out about its chunks.
pub fn build_manifest(file_name: &str, file_size: u64, output: &str) -> (r: Result<
    ManifestFile,
    LineError,
>)
    requires
        file_size + CHUNK_SIZE <= u64::MAX,
    ensures
        match r {
            Ok(m) => exists|chunks: Seq<ChunkInfo>| #[trigger]
                all_say(content_lines(output@), chunks) && is_manifest(
                    m,
                    file_name@,
                    file_size,
                    chunks,
                ),
            Err(e) => exists|i: int| #[trigger]
                first_fault_at(content_lines(output@), i) && e.line@ == content_lines(output@)[i]
                    && fault_of(content_lines(output@)[i]) == Some(e.fault),
        },
{
    let chunks = match parse_chunks(output) {
        Ok(c) => c,
        Err(e) => return Err(e),
    };
    let total_chunks: u64 = chunks_of(file_size);
    let manifest = ManifestFile {
        filename: file_name.to_owned(),
        total_size: file_size,
        chunk_size: CHUNK_SIZE,
        total_chunks: total_chunks as u32,
        cipher: "AES-256-CBC".to_owned(),
        kdf: "PBKDF2-SHA256".to_owned(),
        kdf_iter: KDF_ITER,
        salt_len: 8,
        chunks: sort_chunks(&chunks),
    };
    assert(all_say(content_lines(output@), chunks@));
    Ok(manifest)
}

/// The command that cuts a file into pieces: `dir` and `path` are quoted.
pub open spec fn split_command(dir: Seq<char>, path: Seq<char>) -> Seq<char> {
    "cd "@ + dir + " && FILEPATH="@ + path + " && split -b "@ + crate::number::decimal(
        CHUNK_SIZE_MB as nat,
    ) + "M -d \"$FILEPATH\" chunk_"@
}

fn write_split_command(dir: &str, path: &str) -> (r: String)
    ensures
        r@ == split_command(dir@, path@),
{
    let mut out = cat5("cd ", dir, " && FILEPATH=", path, " && split -b ");
    out.append(decimal_of(CHUNK_SIZE_MB).as_str());
    out.append("M -d \"$FILEPATH\" chunk_");
    out
}

/// The script before the name of the directory.
pub open spec fn script_head() -> Seq<char> {
    "#!/bin/bash\necho \"[DEBUG] running on $(hostname) as $(whoami)\" >&2\nset -euxo pipefail\ntrap 'echo \"[ERR] line:$LINENO cmd:$BASH_COMMAND\" >&2' ERR\n\ncd \""@
}

/// What the script puts out on a piece, with the names of its variables: bars between the
/// number of the chunk, its file, its passphrase, its digest and its size.
pub open spec fn line_template() -> Seq<char> {
    crate::text::joined_with(
        seq!["$chunk_count"@, "$final_name"@, "$PASSWORD"@, "$sha256"@, "$size"@],
        "|"@,
    )
}

/// The part of the script that draws the passphrase of a piece.
pub open spec fn passphrase_command() -> Seq<char> {
    "  PASSWORD=$(openssl rand -base64 32)\n"@
}

/// The part of the script that encrypts a piece.
pub open spec fn encrypt_command() -> Seq<char> {
    "  openssl enc -aes-256-cbc -salt -pbkdf2 -iter "@ + crate::number::decimal(KDF_ITER as nat)
        + " -md sha256 \\\n    -in \"$chunk_file\" -out \"$enc_file\" -pass pass:\"$PASSWORD\"\n"@
}

/// The parts of the script that find out the digest of the encrypted piece, its size and
/// its name, and that give it this name.
pub open spec fn describe_commands() -> Seq<char> {
    "  sha256=$(openssl dgst -sha256 -r \"$enc_file\" | awk '{print $1}')\n"@
        + "\n"@ + "  size=$(stat -c%s \"$enc_file\")\n"@
        + "  final_name=$(printf \"gmf_chunk_%03d.bin\" \"$chunk_count\")\n"@
        + "  mv \"$enc_file\" \"$final_name\"\n"@
}

/// The script behind the name of the directory.
pub open spec fn script_tail() -> Seq<char> {
    "\"\n\nchunk_count=0\nfor chunk_file in chunk_*; do\n  [[ -f \"$chunk_file\" ]] || continue\n\n  # *** 生成 32B 随机口令，Base64 方便 manifest 传输\n"@
        + passphrase_command()
        + "\n  (( chunk_count += 1 ))\n\n  # *** 强化：PBKDF2 + SHA256 + 200k 迭代，仍用 AES-256-CBC\n  enc_file=\"${chunk_file}.enc\"\n"@
        + encrypt_command() + "\n  # *** SHA-256 摘要（替代 MD5）\n"@ + describe_commands()
        + "  rm -f \"$chunk_file\"\n\n  # 输出：id|filename|password|sha256|size\n"@
        + "  echo \""@ + line_template() + "\"\ndone\n"@
}

fn write_line_template() -> (r: String)
    ensures
        r@ == line_template(),
{
    let mut fields: Vec<String> = Vec::new();
    fields.push("$chunk_count".to_owned());
    fields.push("$final_name".to_owned());
    fields.push("$PASSWORD".to_owned());
    fields.push("$sha256".to_owned());
    fields.push("$size".to_owned());
    assert(crate::text::views(fields@) =~= seq![
        "$chunk_count"@,
        "$final_name"@,
        "$PASSWORD"@,
        "$sha256"@,
        "$size"@,
    ]);
    join_with(&fields, "|")
}

fn write_script_tail() -> (r: String)
    ensures
        r@ == script_tail(),
{
    let encrypt = cat3(
        "  openssl enc -aes-256-cbc -salt -pbkdf2 -iter ",
        decimal_of(KDF_ITER as u64).as_str(),
        " -md sha256 \\\n    -in \"$chunk_file\" -out \"$enc_file\" -pass pass:\"$PASSWORD\"\n",
    );
    let describe = cat5(
        "  sha256=$(openssl dgst -sha256 -r \"$enc_file\" | awk '{print $1}')\n",
        "\n",
        "  size=$(stat -c%s \"$enc_file\")\n",
        "  final_name=$(printf \"gmf_chunk_%03d.bin\" \"$chunk_count\")\n",
        "  mv \"$enc_file\" \"$final_name\"\n",
    );
    let mut out = cat5(
        "\"\n\nchunk_count=0\nfor chunk_file in chunk_*; do\n  [[ -f \"$chunk_file\" ]] || continue\n\n  # *** 生成 32B 随机口令，Base64 方便 manifest 传输\n",
        "  PASSWORD=$(openssl rand -base64 32)\n",
        "\n  (( chunk_count += 1 ))\n\n  # *** 强化：PBKDF2 + SHA256 + 200k 迭代，仍用 AES-256-CBC\n  enc_file=\"${chunk_file}.enc\"\n",
        encrypt.as_str(),
        "\n  # *** SHA-256 摘要（替代 MD5）\n",
    );
    out.append(describe.as_str());
    out.append("  rm -f \"$chunk_file\"\n\n  # 输出：id|filename|password|sha256|size\n");
    out.append("  echo \"");
    out.append(write_line_template().as_str());
    out.append("\"\ndone\n");
    out
}

/// The script that encrypts the pieces in a directory and puts out a line on each.
pub fn encrypt_script(dir: &str) -> (r: String)
    ensures
        r@ == script_head() + dir@ + script_tail(),
{
    cat3(
        "#!/bin/bash\necho \"[DEBUG] running on $(hostname) as $(whoami)\" >&2\nset -euxo pipefail\ntrap 'echo \"[ERR] line:$LINENO cmd:$BASH_COMMAND\" >&2' ERR\n\ncd \"",
        dir,
        write_script_tail().as_str(),
    )
}

/// Where the splitting stands.
#[derive(Debug, Clone, Copy, PartialEq, Eq, Structural)]
pub enum SplitStep {
    MakingDir,
    Splitting,
    Encrypting,
    Ended,
}

/// The splitting of one file on the remote host.
#[derive(Debug)]
pub struct SplitJob {
    pub step: SplitStep,
    pub path: String,
    pub file_name: String,
    pub file_size: u64,
    /// The directory for the pieces, and the same quoted for a shell.
    pub work_dir: String,
    pub quoted_dir: String,
}

/// What to do next.
#[derive(Debug)]
pub enum SplitAction {
    /// Run this on the remote host.
    Run(String),
    /// Run `cleanup` if there is any, then end with these words.
    Fail { cleanup: Option<String>, words: String },
    /// A line of the output cannot be read.
    BadLine(LineError),
    /// Everything is done: the manifest, and the directory that holds the chunks.
    Finish(ManifestFile, String),
}

/// `r` ends with these words, after this command.
pub open spec fn fails(r: SplitAction, cleanup: Option<Seq<char>>, words: Seq<char>) -> bool {
    &&& r matches SplitAction::Fail { cleanup: c, words: w }
    &&& w@ == words
    &&& match cleanup {
        Some(t) => c matches Some(s) && s@ == t,
        None => c is None,
    }
}

/// The words for a script that failed.
pub open spec fn batch_failed_text(output: CommandOutput) -> Seq<char> {
    "批处理失败（exit="@ + crate::number::signed_decimal(
        match output.status_code {
            Some(code) => code as int,
            None => -1,
        },
    ) + "）\nstdout:\n"@ + output.stdout@ + "\nstderr:\n"@ + output.stderr@
}

impl SplitJob {
    /// Starts to split a file that is there: first a directory for the pieces is made.
    pub fn encrypt_and_split(path: String, file_name: String, file_size: u64) -> (r: (
        SplitJob,
        SplitAction,
    ))
        ensures
            r.0.step == SplitStep::MakingDir,
            r.0.path == path,
            r.0.file_name == file_name,
            r.0.file_size == file_size,
            r.1 matches SplitAction::Run(command) && command@ == "mktemp -d"@,
    {
        (
            SplitJob {
                step: SplitStep::MakingDir,
                path,
                file_name,
                file_size,
                work_dir: String::new(),
                quoted_dir: String::new(),
            },
            SplitAction::Run("mktemp -d".to_owned()),
        )
    }

    /// The directory for the pieces stays the same.
    pub open spec fn keeps_dir(self, after: SplitJob) -> bool {
        after.work_dir@ == self.work_dir@ && after.quoted_dir@ == self.quoted_dir@
    }

    /// `r` is what follows when the directory was made, or not.
    pub open spec fn after_mktemp(self, output: CommandOutput, r: SplitAction, after: SplitJob) -> bool {
        let dir = crate::text::trimmed(output.stdout@);
        if output.status_code != Some(0i32) {
            fails(r, None, "创建临时目录失败: "@ + output.stderr@) && after.step
                == SplitStep::Ended && self.keeps_dir(after)
        } else if dir.contains('\0') || self.path@.contains('\0') {
            fails(r, None, "cannot shell-quote string containing nul byte"@) && after.step
                == SplitStep::Ended && self.keeps_dir(after)
        } else {
            &&& r matches SplitAction::Run(command)
            &&& command@ == split_command(
                crate::outside::shell::shell_quoted(dir),
                crate::outside::shell::shell_quoted(self.path@),
            )
            &&& after.step == SplitStep::Splitting
            &&& after.work_dir@ == dir
            &&& after.quoted_dir@ == crate::outside::shell::shell_quoted(dir)
        }
    }

    /// `r` is what follows when the file was cut, or not.
    pub open spec fn after_split(self, output: CommandOutput, r: SplitAction, after: SplitJob) -> bool {
        &&& self.keeps_dir(after)
        &&& if output.status_code != Some(0i32) {
            fails(
                r,
                Some("rm -rf "@ + self.work_dir@),
                "文件分割失败: "@ + output.stderr@,
            ) && after.step == SplitStep::Ended
        } else {
            &&& r matches SplitAction::Run(command)
            &&& command@ == script_head() + self.work_dir@ + script_tail()
            &&& after.step == SplitStep::Encrypting
        }
    }

    /// `r` is what follows when the pieces were encrypted, or not.
    pub open spec fn after_script(self, output: CommandOutput, r: SplitAction, after: SplitJob) -> bool {
        &&& self.keeps_dir(after)
        &&& after.step == SplitStep::Ended
        &&& if output.status_code != Some(0i32) {
            fails(r, Some("rm -rf "@ + self.quoted_dir@), batch_failed_text(output))
        } else {
            match r {
                SplitAction::Finish(m, dir) => {
                    &&& dir@ == self.work_dir@
                    &&& exists|chunks: Seq<ChunkInfo>| #[trigger]
                        all_say(content_lines(output.stdout@), chunks) && is_manifest(
                            m,
                            self.file_name@,
                            self.file_size,
                            chunks,
                        )
                },
                SplitAction::BadLine(e) => exists|i: int| #[trigger]
                    first_fault_at(content_lines(output.stdout@), i) && e.line@ == content_lines(
                        output.stdout@,
                    )[i] && fault_of(content_lines(output.stdout@)[i]) == Some(e.fault),
                _ => false,
            }
        }
    }

    /// Goes on with the output of the last command.
    pub fn step(&mut self, output: CommandOutput) -> (r: SplitAction)
        requires
            old(self).step != SplitStep::Ended,
            old(self).file_size + CHUNK_SIZE <= u64::MAX,
        ensures
            final(self).path == old(self).path,
            final(self).file_name == old(self).file_name,
            final(self).file_size == old(self).file_size,
            match old(self).step {
                SplitStep::MakingDir => old(self).after_mktemp(output, r, *final(self)),
                SplitStep::Splitting => old(self).after_split(output, r, *final(self)),
                _ => old(self).after_script(output, r, *final(self)),
            },
    {
        let good = match output.status_code {
            Some(code) => code == 0,
            None => false,
        };
        match self.step {
            SplitStep::MakingDir => {
                self.step = SplitStep::Ended;
                if !good {
                    return SplitAction::Fail {
                        cleanup: None,
                        words: cat2("创建临时目录失败: ", output.stderr.as_str()),
                    };
                }
                let dir = trim(output.stdout.as_str());
                let quoted_dir = match shell_quote(dir.as_str()) {
                    Some(q) => q,
                    None => {
                        return SplitAction::Fail {
                            cleanup: None,
                            words: "cannot shell-quote string containing nul byte".to_owned(),
                        };
                    },
                };
                let quoted_path = match shell_quote(self.path.as_str()) {
                    Some(q) => q,
                    None => {
                        return SplitAction::Fail {
                            cleanup: None,
                            words: "cannot shell-quote string containing nul byte".to_owned(),
                        };
                    },
                };
                let command = write_split_command(quoted_dir.as_str(), quoted_path.as_str());
                self.step = SplitStep::Splitting;
                self.work_dir = dir;
                self.quoted_dir = quoted_dir;
                SplitAction::Run(command)
            },
            SplitStep::Splitting => {
                if !good {
                    self.step = SplitStep::Ended;
                    return SplitAction::Fail {
                        cleanup: Some(cat2("rm -rf ", self.work_dir.as_str())),
                        words: cat2("文件分割失败: ", output.stderr.as_str()),
                    };
                }
                self.step = SplitStep::Encrypting;
                SplitAction::Run(encrypt_script(self.work_dir.as_str()))
            },
            _ => {
                self.step = SplitStep::Ended;
                if !good {
                    let code: i32 = match output.status_code {
                        Some(c) => c,
                        None => -1,
                    };
                    let mut words = cat5(
                        "批处理失败（exit=",
                        signed_decimal_of(code).as_str(),
                        "）\nstdout:\n",
                        output.stdout.as_str(),
                        "\nstderr:\n",
                    );
                    words.append(output.stderr.as_str());
                    return SplitAction::Fail {
                        cleanup: Some(cat2("rm -rf ", self.quoted_dir.as_str())),
                        words,
                    };
                }
                match build_manifest(
                    self.file_name.as_str(),
                    self.file_size,
                    output.stdout.as_str(),
                ) {
                    Ok(m) => SplitAction::Finish(m, self.work_dir.clone()),
                    Err(e) => SplitAction::BadLine(e),
                }
            },
        }
    }
}

/// The directory that comes back with the manifest is the one that was made at first,
/// without the white space around its name.
pub proof fn law_split_gives_its_directory(
    jobs: Seq<SplitJob>,
    outputs: Seq<CommandOutput>,
    actions: Seq<SplitAction>,
)
    requires
        jobs.len() == 4,
        outputs.len() == 3,
        actions.len() == 3,
        jobs[0].after_mktemp(outputs[0], actions[0], jobs[1]),
        jobs[1].after_split(outputs[1], actions[1], jobs[2]),
        jobs[2].after_script(outputs[2], actions[2], jobs[3]),
        actions[2] is Finish,
        actions[0] is Run,
    ensures
        actions[2] matches SplitAction::Finish(_, dir) && dir@ == crate::text::trimmed(
            outputs[0].stdout@,
        ),
{
}

/// A line about a chunk says one thing: two readings of it are the same.
pub proof fn law_lines_say_one_thing(line: Seq<char>, a: ChunkInfo, b: ChunkInfo)
    requires
        says(line, a),
        says(line, b),
    ensures
        a.id == b.id,
        a.size == b.size,
        a.filename@ == b.filename@,
        a.passphrase_b64@ == b.passphrase_b64@,
        a.sha256@ == b.sha256@,
{
}

/// What the script puts for one of its variables when the chunk is `info`.
pub open spec fn value_of(variable: Seq<char>, info: ChunkInfo) -> Seq<char> {
    if variable == "$chunk_count"@ {
        crate::number::decimal(info.id as nat)
    } else if variable == "$final_name"@ {
        info.filename@
    } else if variable == "$PASSWORD"@ {
        info.passphrase_b64@
    } else if variable == "$sha256"@ {
        info.sha256@
    } else if variable == "$size"@ {
        crate::number::decimal(info.size as nat)
    } else {
        Seq::empty()
    }
}

/// The line that the script puts out on the chunk `info`: its template with the values of
/// the variables.
pub open spec fn printed_line(info: ChunkInfo) -> Seq<char> {
    crate::text::joined_with(
        crate::text::pieces(line_template(), '|').map_values(|v: Seq<char>| value_of(v, info)),
        seq!['|'],
    )
}

/// The parts of a line on a chunk can be told apart, and there is a line.
pub open spec fn is_printable(info: ChunkInfo) -> bool {
    &&& !info.filename@.contains('|')
    &&& !info.passphrase_b64@.contains('|')
    &&& !info.sha256@.contains('|')
}

proof fn lemma_template_fields()
    ensures
        crate::text::pieces(line_template(), '|') == seq![
            "$chunk_count"@,
            "$final_name"@,
            "$PASSWORD"@,
            "$sha256"@,
            "$size"@,
        ],
{
    reveal_strlit("$chunk_count");
    reveal_strlit("$final_name");
    reveal_strlit("$PASSWORD");
    reveal_strlit("$sha256");
    reveal_strlit("$size");
    reveal_strlit("|");
    assert("|"@ =~= seq!['|']);
    let fields = seq!["$chunk_count"@, "$final_name"@, "$PASSWORD"@, "$sha256"@, "$size"@];
    assert forall|i: int| 0 <= i < fields.len() implies !(#[trigger] fields[i]).contains('|') by {
        if fields[i].contains('|') {
            let k = choose|k: int| 0 <= k < fields[i].len() && fields[i][k] == '|';
            assert(fields[i][k] != '|');
        }
    }
    crate::text::law_split_undoes_join(fields, '|');
}

/// What the script puts out on a chunk is read as that chunk: whatever the number, the
/// file, the passphrase, the digest and the size that it found, the line says just these.
pub proof fn law_printed_line_is_read(info: ChunkInfo)
    requires
        is_printable(info),
    ensures
        says(printed_line(info), info),
        fault_of(printed_line(info)) is None,
{
    lemma_template_fields();
    reveal_strlit("$chunk_count");
    reveal_strlit("$final_name");
    reveal_strlit("$PASSWORD");
    reveal_strlit("$sha256");
    reveal_strlit("$size");
    let fields = crate::text::pieces(line_template(), '|');
    let values = fields.map_values(|v: Seq<char>| value_of(v, info));
    assert("$chunk_count"@.len() == 12 && "$final_name"@.len() == 11 && "$PASSWORD"@.len() == 9
        && "$sha256"@.len() == 7 && "$size"@.len() == 5);
    assert(values[0] == value_of(fields[0], info));
    assert(values[1] == value_of(fields[1], info));
    assert(values[2] == value_of(fields[2], info));
    assert(values[3] == value_of(fields[3], info));
    assert(values[4] == value_of(fields[4], info));
    assert(values =~= seq![
        crate::number::decimal(info.id as nat),
        info.filename@,
        info.passphrase_b64@,
        info.sha256@,
        crate::number::decimal(info.size as nat),
    ]);
    crate::number::law_decimal_is_digits(info.id as nat);
    crate::number::law_decimal_is_digits(info.size as nat);
    assert forall|i: int| 0 <= i < values.len() implies !(#[trigger] values[i]).contains('|') by {
        if values[i].contains('|') {
            let k = choose|k: int| 0 <= k < values[i].len() && values[i][k] == '|';
            assert(values[i][k] == '|');
            if i == 0 {
                assert('0' <= crate::number::decimal(info.id as nat)[k] <= '9');
            }
            if i == 4 {
                assert('0' <= crate::number::decimal(info.size as nat)[k] <= '9');
            }
        }
    }
    crate::text::law_split_undoes_join(values, '|');
    crate::number::law_decimal_read_back(info.id as nat);
    crate::number::law_decimal_read_back(info.size as nat);
}

/// A line that can be read has five parts between four bars, and starts and ends with a
/// number.
pub proof fn law_readable_line_has_five_parts(line: Seq<char>, info: ChunkInfo)
    requires
        says(line, info),
    ensures
        crate::text::pieces(line, '|').len() == 5,
        line == crate::text::joined_with(
            seq![
                crate::text::pieces(line, '|')[0],
                info.filename@,
                info.passphrase_b64@,
                info.sha256@,
                crate::text::pieces(line, '|')[4],
            ],
            seq!['|'],
        ),
        crate::number::unsigned_value(crate::text::pieces(line, '|')[0]) == Some(info.id as nat),
        crate::number::unsigned_value(crate::text::pieces(line, '|')[4]) == Some(info.size as nat),
{
    crate::text::law_join_undoes_split(line, '|');
    let parts = crate::text::pieces(line, '|');
    assert(parts =~= seq![parts[0], info.filename@, info.passphrase_b64@, info.sha256@, parts[4]]);
}

/// A line that cannot be read is one of no five parts, or one whose number or size is none:
/// every other line can be.
pub proof fn law_only_faulty_lines_are_refused(line: Seq<char>)
    ensures
        fault_of(line) is Some ==> {
            let parts = crate::text::pieces(line, '|');
            ||| parts.len() != 5
            ||| !(exists|n: u32| crate::number::unsigned_value(parts[0]) == Some(n as nat))
            ||| !(exists|n: u64| crate::number::unsigned_value(parts[4]) == Some(n as nat))
        },
        fault_of(line) == Some(LineFault::Format) <==> crate::text::pieces(line, '|').len() != 5,
{
}

proof fn lemma_kept_all(lines: Seq<Seq<char>>)
    requires
        forall|i: int|
            0 <= i < lines.len() ==> crate::text::trimmed(#[trigger] lines[i]) == lines[i]
                && lines[i].len() > 0,
    ensures
        kept(lines) == lines,
    decreases lines.len(),
{
    if lines.len() > 0 {
        let d = lines.drop_last();
        assert forall|i: int| 0 <= i < d.len() implies crate::text::trimmed(#[trigger] d[i]) == d[i]
            && d[i].len() > 0 by {
            assert(d[i] == lines[i]);
        }
        lemma_kept_all(d);
        assert(lines[lines.len() - 1] == lines.last());
        assert(d.push(lines.last()) =~= lines);
    } else {
        assert(lines =~= Seq::empty());
    }
}

/// Every line of an output that holds anything is read, in order, and nothing else is: with
/// an end behind each, lines that hold something come back as they were put out.
pub proof fn law_output_lines_are_read(lines: Seq<Seq<char>>)
    requires
        lines.len() > 0,
        forall|i: int|
            0 <= i < lines.len() ==> crate::text::trimmed(#[trigger] lines[i]) == lines[i]
                && lines[i].len() > 0 && !lines[i].contains('\n'),
    ensures
        content_lines(crate::text::joined_with(lines, seq!['\n']) + seq!['\n']) == lines,
{
    let empty = Seq::<char>::empty();
    let all = lines.push(empty);
    assert forall|i: int| 0 <= i < all.len() implies !(#[trigger] all[i]).contains('\n') by {
        if i < lines.len() {
            assert(all[i] == lines[i]);
        }
    }
    crate::text::law_split_undoes_join(all, '\n');
    assert(all.drop_last() =~= lines);
    let text = crate::text::joined_with(lines, seq!['\n']) + seq!['\n'];
    assert(crate::text::joined_with(all, seq!['\n']) =~= text);
    lemma_kept_all(lines);
    assert(crate::text::trimmed(empty).len() == 0);
}

/// Blank lines say nothing: what an output says does not change by them.
pub proof fn law_blank_lines_say_nothing(lines: Seq<Seq<char>>, blank: Seq<char>, text: Seq<char>)
    requires
        forall|i: int| 0 <= i < blank.len() ==> crate::text::is_white_space(#[trigger] blank[i]),
        crate::text::trimmed(text).len() > 0,
    ensures
        kept(lines.push(blank)) == kept(lines),
        kept(lines.push(text)) == kept(lines).push(crate::text::trimmed(text)),
{
    let ends = crate::text::law_trim_takes_only_white_space(blank);
    if ends.0 < ends.1 {
        assert(crate::text::is_white_space(blank[ends.0]));
    }
    assert(lines.push(blank).drop_last() =~= lines);
    assert(lines.push(text).drop_last() =~= lines);
}

/// The manifest holds what the script put out: for each of the chunks a line, and of each
/// just its number, its file, its passphrase, its digest and its size.
pub proof fn law_script_output_is_taken_over(
    printed: Seq<ChunkInfo>,
    read: Seq<ChunkInfo>,
    i: int,
)
    requires
        all_say(
            Seq::new(printed.len(), |k: int| printed_line(printed[k])),
            read,
        ),
        forall|k: int| 0 <= k < printed.len() ==> is_printable(#[trigger] printed[k]),
        0 <= i < printed.len(),
    ensures
        read.len() == printed.len(),
        read[i].id == printed[i].id,
        read[i].filename@ == printed[i].filename@,
        read[i].passphrase_b64@ == printed[i].passphrase_b64@,
        read[i].sha256@ == printed[i].sha256@,
        read[i].size == printed[i].size,
{
    let lines = Seq::new(printed.len(), |k: int| printed_line(printed[k]));
    assert(says(lines[i], read[i]));
    law_printed_line_is_read(printed[i]);
    law_lines_say_one_thing(lines[i], read[i], printed[i]);
}

/// The text of the script for a directory.
pub open spec fn script_text(dir: Seq<char>) -> Seq<char> {
    script_head() + dir + script_tail()
}

proof fn lemma_script_holds(dir: Seq<char>, part: Seq<char>)
    requires
        part == passphrase_command() || part == encrypt_command() || part == describe_commands()
            || part == "\n  (( chunk_count += 1 ))\n\n  # *** 强化：PBKDF2 + SHA256 + 200k 迭代，仍用 AES-256-CBC\n  enc_file=\"${chunk_file}.enc\"\n"@
            || part == "  echo \""@ + line_template() + "\"\ndone\n"@,
    ensures
        crate::text::occurs(script_text(dir), part),
        forall|inner: Seq<char>| #[trigger]
            crate::text::occurs(part, inner) ==> crate::text::occurs(script_text(dir), inner),
{
    let a = "\"\n\nchunk_count=0\nfor chunk_file in chunk_*; do\n  [[ -f \"$chunk_file\" ]] || continue\n\n  # *** 生成 32B 随机口令，Base64 方便 manifest 传输\n"@;
    let b = passphrase_command();
    let c = "\n  (( chunk_count += 1 ))\n\n  # *** 强化：PBKDF2 + SHA256 + 200k 迭代，仍用 AES-256-CBC\n  enc_file=\"${chunk_file}.enc\"\n"@;
    let d = encrypt_command();
    let e = "\n  # *** SHA-256 摘要（替代 MD5）\n"@;
    let f = describe_commands();
    let g = "  rm -f \"$chunk_file\"\n\n  # 输出：id|filename|password|sha256|size\n"@;
    let h = "  echo \""@ + line_template() + "\"\ndone\n"@;
    let start = script_head() + dir;
    assert(script_tail() =~= a + b + c + d + e + f + g + h);
    assert(script_text(dir) =~= (start + a) + b + (c + d + e + f + g + h));
    crate::text::law_part_occurs(start + a, b, c + d + e + f + g + h);
    assert(script_text(dir) =~= (start + a + b) + c + (d + e + f + g + h));
    crate::text::law_part_occurs(start + a + b, c, d + e + f + g + h);
    assert(script_text(dir) =~= (start + a + b + c) + d + (e + f + g + h));
    crate::text::law_part_occurs(start + a + b + c, d, e + f + g + h);
    assert(script_text(dir) =~= (start + a + b + c + d + e) + f + (g + h));
    crate::text::law_part_occurs(start + a + b + c + d + e, f, g + h);
    assert(script_text(dir) =~= (start + a + b + c + d + e + f + g) + h + Seq::<char>::empty());
    crate::text::law_part_occurs(start + a + b + c + d + e + f + g, h, Seq::empty());
}

/// The chunks are encrypted as their manifest says: the script runs `openssl` with the
/// cipher of the manifest, in small letters, and repeats the derivation of the key as often
/// as the manifest says.
pub proof fn law_script_encrypts_as_manifest_says(
    dir: Seq<char>,
    m: ManifestFile,
    file_name: Seq<char>,
    file_size: u64,
    chunks: Seq<ChunkInfo>,
)
    requires
        is_manifest(m, file_name, file_size, chunks),
    ensures
        crate::text::occurs(
            script_text(dir),
            "openssl enc -"@ + crate::text::ascii_lowered(m.cipher@) + " -salt -pbkdf2 -iter "@
                + crate::number::decimal(m.kdf_iter as nat) + " -md sha256 "@,
        ),
        crate::text::ascii_lowered(m.kdf@) == "pbkdf2"@ + "-"@ + "sha256"@,
        m.kdf_iter == 200 * 1000,
        m.salt_len == 8,
{
    let n = "openssl enc -"@ + crate::text::ascii_lowered(m.cipher@) + " -salt -pbkdf2 -iter "@
        + crate::number::decimal(m.kdf_iter as nat) + " -md sha256 "@;
    reveal_strlit("openssl enc -");
    reveal_strlit("AES-256-CBC");
    reveal_strlit(" -salt -pbkdf2 -iter ");
    reveal_strlit(" -md sha256 ");
    reveal_strlit("  openssl enc -aes-256-cbc -salt -pbkdf2 -iter ");
    reveal_strlit(
        " -md sha256 \\\n    -in \"$chunk_file\" -out \"$enc_file\" -pass pass:\"$PASSWORD\"\n",
    );
    let c = encrypt_command();
    assert(c.subrange(2, 2int + n.len()) =~= n);
    assert(crate::text::occurs_at(c, n, 2));
    assert(crate::text::occurs(c, n));
    lemma_script_holds(dir, c);
    reveal_strlit("PBKDF2-SHA256");
    reveal_strlit("pbkdf2");
    reveal_strlit("-");
    reveal_strlit("sha256");
    assert(crate::text::ascii_lowered(m.kdf@) =~= "pbkdf2"@ + "-"@ + "sha256"@);
}

/// The script encrypts each piece under a passphrase of its own, and describes what it made
/// of it: the passphrase is thirty-two random bytes in Base64, the digest and the size are
/// those of the encrypted piece, which goes to the file that the line names.
pub proof fn law_script_describes_what_it_encrypted(dir: Seq<char>)
    ensures
        crate::text::occurs(script_text(dir), "PASSWORD=$(openssl rand -base64 32)\n"@),
        crate::text::occurs(script_text(dir), "(( chunk_count += 1 ))\n"@),
        crate::text::occurs(
            script_text(dir),
            "-in \"$chunk_file\" -out \"$enc_file\" -pass pass:\"$PASSWORD\"\n"@,
        ),
        crate::text::occurs(
            script_text(dir),
            "sha256=$(openssl dgst -sha256 -r \"$enc_file\" | awk '{print $1}')\n"@,
        ),
        crate::text::occurs(script_text(dir), "size=$(stat -c%s \"$enc_file\")\n"@),
        crate::text::occurs(
            script_text(dir),
            "final_name=$(printf \"gmf_chunk_%03d.bin\" \"$chunk_count\")\n"@,
        ),
        crate::text::occurs(script_text(dir), "mv \"$enc_file\" \"$final_name\"\n"@),
        crate::text::occurs(script_text(dir), "echo \""@ + line_template() + "\"\n"@),
        crate::text::occurs(script_text(dir), "cd \""@ + dir + "\"\n"@),
{
    lemma_script_holds(dir, passphrase_command());
    reveal_strlit("PASSWORD=$(openssl rand -base64 32)\n");
    reveal_strlit("  PASSWORD=$(openssl rand -base64 32)\n");
    let n = "PASSWORD=$(openssl rand -base64 32)\n"@;
    assert(passphrase_command().subrange(2, 2int + n.len()) =~= n);
    assert(crate::text::occurs_at(passphrase_command(), n, 2));
    assert(crate::text::occurs(passphrase_command(), n));

    let c = "\n  (( chunk_count += 1 ))\n\n  # *** 强化：PBKDF2 + SHA256 + 200k 迭代，仍用 AES-256-CBC\n  enc_file=\"${chunk_file}.enc\"\n"@;
    lemma_script_holds(dir, c);
    reveal_strlit("(( chunk_count += 1 ))\n");
    reveal_strlit(
        "\n  (( chunk_count += 1 ))\n\n  # *** 强化：PBKDF2 + SHA256 + 200k 迭代，仍用 AES-256-CBC\n  enc_file=\"${chunk_file}.enc\"\n",
    );
    let n = "(( chunk_count += 1 ))\n"@;
    assert(c.subrange(3, 3int + n.len()) =~= n);
    assert(crate::text::occurs_at(c, n, 3));
    assert(crate::text::occurs(c, n));

    let e = encrypt_command();
    lemma_script_holds(dir, e);
    reveal_strlit("-in \"$chunk_file\" -out \"$enc_file\" -pass pass:\"$PASSWORD\"\n");
    reveal_strlit(
        " -md sha256 \\\n    -in \"$chunk_file\" -out \"$enc_file\" -pass pass:\"$PASSWORD\"\n",
    );
    let n = "-in \"$chunk_file\" -out \"$enc_file\" -pass pass:\"$PASSWORD\"\n"@;
    let k = e.len() - n.len();
    assert(e.subrange(k, k + n.len()) =~= n);
    assert(crate::text::occurs_at(e, n, k));
    assert(crate::text::occurs(e, n));

    lemma_description(dir);

    let h = "  echo \""@ + line_template() + "\"\ndone\n"@;
    lemma_script_holds(dir, h);
    reveal_strlit("  echo \"");
    reveal_strlit("echo \"");
    reveal_strlit("\"\ndone\n");
    reveal_strlit("\"\n");
    let n = "echo \""@ + line_template() + "\"\n"@;
    assert(h.subrange(2, 2int + n.len()) =~= n);
    assert(crate::text::occurs_at(h, n, 2));
    assert(crate::text::occurs(h, n));

    reveal_strlit("cd \"");
    reveal_strlit(
        "#!/bin/bash\necho \"[DEBUG] running on $(hostname) as $(whoami)\" >&2\nset -euxo pipefail\ntrap 'echo \"[ERR] line:$LINENO cmd:$BASH_COMMAND\" >&2' ERR\n\ncd \"",
    );
    reveal_strlit(
        "\"\n\nchunk_count=0\nfor chunk_file in chunk_*; do\n  [[ -f \"$chunk_file\" ]] || continue\n\n  # *** 生成 32B 随机口令，Base64 方便 manifest 传输\n",
    );
    let s = script_text(dir);
    let n = "cd \""@ + dir + "\"\n"@;
    let k = script_head().len() - 4;
    assert(s.subrange(k, k + n.len()) =~= n);
    assert(crate::text::occurs_at(s, n, k));
}

proof fn lemma_description(dir: Seq<char>)
    ensures
        crate::text::occurs(
            script_text(dir),
            "sha256=$(openssl dgst -sha256 -r \"$enc_file\" | awk '{print $1}')\n"@,
        ),
        crate::text::occurs(script_text(dir), "size=$(stat -c%s \"$enc_file\")\n"@),
        crate::text::occurs(
            script_text(dir),
            "final_name=$(printf \"gmf_chunk_%03d.bin\" \"$chunk_count\")\n"@,
        ),
        crate::text::occurs(script_text(dir), "mv \"$enc_file\" \"$final_name\"\n"@),
{
    let f = describe_commands();
    lemma_script_holds(dir, f);
    let a = "  sha256=$(openssl dgst -sha256 -r \"$enc_file\" | awk '{print $1}')\n"@;
    let b = "\n"@;
    let c = "  size=$(stat -c%s \"$enc_file\")\n"@;
    let d = "  final_name=$(printf \"gmf_chunk_%03d.bin\" \"$chunk_count\")\n"@;
    let e = "  mv \"$enc_file\" \"$final_name\"\n"@;
    reveal_strlit("sha256=$(openssl dgst -sha256 -r \"$enc_file\" | awk '{print $1}')\n");
    reveal_strlit("  sha256=$(openssl dgst -sha256 -r \"$enc_file\" | awk '{print $1}')\n");
    reveal_strlit("size=$(stat -c%s \"$enc_file\")\n");
    reveal_strlit("  size=$(stat -c%s \"$enc_file\")\n");
    reveal_strlit("final_name=$(printf \"gmf_chunk_%03d.bin\" \"$chunk_count\")\n");
    reveal_strlit("  final_name=$(printf \"gmf_chunk_%03d.bin\" \"$chunk_count\")\n");
    reveal_strlit("mv \"$enc_file\" \"$final_name\"\n");
    reveal_strlit("  mv \"$enc_file\" \"$final_name\"\n");
    let n = "sha256=$(openssl dgst -sha256 -r \"$enc_file\" | awk '{print $1}')\n"@;
    assert(f.subrange(2, 2int + n.len()) =~= n);
    assert(crate::text::occurs_at(f, n, 2));
    assert(crate::text::occurs(f, n));
    let n = "size=$(stat -c%s \"$enc_file\")\n"@;
    let k: int = (a + b).len() as int + 2;
    assert(f.subrange(k, k + n.len()) =~= n);
    assert(crate::text::occurs_at(f, n, k));
    assert(crate::text::occurs(f, n));
    let n = "final_name=$(printf \"gmf_chunk_%03d.bin\" \"$chunk_count\")\n"@;
    let k: int = (a + b + c).len() as int + 2;
    assert(f.subrange(k, k + n.len()) =~= n);
    assert(crate::text::occurs_at(f, n, k));
    assert(crate::text::occurs(f, n));
    let n = "mv \"$enc_file\" \"$final_name\"\n"@;
    let k: int = (a + b + c + d).len() as int + 2;
    assert(f.subrange(k, k + n.len()) =~= n);
    assert(crate::text::occurs_at(f, n, k));
    assert(crate::text::occurs(f, n));
}

/// The file is cut into pieces of the size that its manifest says: the command goes to the
/// directory, takes the file, and cuts it every so many mebibytes; and a chunk has as many
/// bytes as that.
pub proof fn law_file_is_cut_as_manifest_says(
    dir: Seq<char>,
    path: Seq<char>,
    m: ManifestFile,
    file_name: Seq<char>,
    file_size: u64,
    chunks: Seq<ChunkInfo>,
) -> (mebibytes: nat)
    requires
        is_manifest(m, file_name, file_size, chunks),
    ensures
        m.chunk_size == mebibytes * 1024 * 1024,
        mebibytes == 10,
        split_command(dir, path) == "cd "@ + dir + " && "@ + "FILEPATH="@ + path + " && "@
            + "split -b "@ + crate::number::decimal(mebibytes) + "M -d "@
            + "\"$FILEPATH\" chunk_"@,
{
    reveal_strlit(" && FILEPATH=");
    reveal_strlit(" && ");
    reveal_strlit("FILEPATH=");
    reveal_strlit(" && split -b ");
    reveal_strlit("split -b ");
    reveal_strlit("M -d \"$FILEPATH\" chunk_");
    reveal_strlit("M -d ");
    reveal_strlit("\"$FILEPATH\" chunk_");
    assert(split_command(dir, path) =~= "cd "@ + dir + " && "@ + "FILEPATH="@ + path + " && "@
        + "split -b "@ + crate::number::decimal(10) + "M -d "@ + "\"$FILEPATH\" chunk_"@);
    10
}

/// The manifest is for the file that was cut: it has its name and size, as many chunks as
/// cover it, and the chunks that were put out, each once, in the order of their numbers.
pub proof fn law_manifest_is_for_the_file(
    m: ManifestFile,
    file_name: Seq<char>,
    file_size: u64,
    chunks: Seq<ChunkInfo>,
)
    requires
        is_manifest(m, file_name, file_size, chunks),
        crate::number::chunk_count(file_size as nat, CHUNK_SIZE as nat) <= u32::MAX,
    ensures
        m.filename@ == file_name,
        m.total_size == file_size,
        file_size <= m.total_chunks * m.chunk_size < file_size + m.chunk_size,
        m.chunks@.to_multiset() == chunks.to_multiset(),
        forall|i: int, j: int|
            0 <= i < j < m.chunks@.len() ==> (#[trigger] m.chunks@[i]).id <= (
            #[trigger] m.chunks@[j]).id,
{
    crate::number::law_chunks_cover_file(file_size as nat, CHUNK_SIZE as nat, 0);
    crate::chunk::law_in_order_sorts(chunks);
}

/// A file on the remote host is split in three steps: a directory is made, the file is cut
/// there, and the pieces are encrypted there. Where each goes well and each line can be
/// read, the manifest of the file comes back with that directory.
pub proof fn law_split_runs_through(
    jobs: Seq<SplitJob>,
    outputs: Seq<CommandOutput>,
    actions: Seq<SplitAction>,
)
    requires
        jobs.len() == 4,
        outputs.len() == 3,
        actions.len() == 3,
        jobs[0].after_mktemp(outputs[0], actions[0], jobs[1]),
        jobs[1].after_split(outputs[1], actions[1], jobs[2]),
        jobs[2].after_script(outputs[2], actions[2], jobs[3]),
        forall|i: int| 0 <= i < 3 ==> (#[trigger] outputs[i]).status_code == Some(0i32),
        !crate::text::trimmed(outputs[0].stdout@).contains('\0'),
        !jobs[0].path@.contains('\0'),
        forall|i: int|
            0 <= i < content_lines(outputs[2].stdout@).len() ==> fault_of(
                #[trigger] content_lines(outputs[2].stdout@)[i],
            ) is None,
    ensures
        actions[0] matches SplitAction::Run(command) && command@ == split_command(
            crate::outside::shell::shell_quoted(crate::text::trimmed(outputs[0].stdout@)),
            crate::outside::shell::shell_quoted(jobs[0].path@),
        ),
        jobs[1].step == SplitStep::Splitting,
        actions[1] matches SplitAction::Run(command) && command@ == script_text(
            crate::text::trimmed(outputs[0].stdout@),
        ),
        jobs[2].step == SplitStep::Encrypting,
        actions[2] matches SplitAction::Finish(m, dir) && dir@ == crate::text::trimmed(
            outputs[0].stdout@,
        ) && m.filename@ == jobs[2].file_name@ && m.total_size == jobs[2].file_size
            && m.chunks@.len() == content_lines(outputs[2].stdout@).len(),
        jobs[3].step == SplitStep::Ended,
{
    assert(outputs[0].status_code == Some(0i32));
    assert(outputs[1].status_code == Some(0i32));
    assert(outputs[2].status_code == Some(0i32));
    if let SplitAction::BadLine(e) = actions[2] {
        let i = choose|i: int| #[trigger]
            first_fault_at(content_lines(outputs[2].stdout@), i) && e.line@ == content_lines(
                outputs[2].stdout@,
            )[i] && fault_of(content_lines(outputs[2].stdout@)[i]) == Some(e.fault);
        assert(fault_of(content_lines(outputs[2].stdout@)[i]) is None);
    }
    if let SplitAction::Finish(m, dir) = actions[2] {
        let chunks = choose|chunks: Seq<ChunkInfo>| #[trigger]
            all_say(content_lines(outputs[2].stdout@), chunks) && is_manifest(
                m,
                jobs[2].file_name@,
                jobs[2].file_size,
                chunks,
            );
        crate::chunk::law_in_order_sorts(chunks);
        m.chunks@.to_multiset_ensures();
        chunks.to_multiset_ensures();
    }
}

/// A step that failed ends the splitting, with words that end with what the remote host
/// said of it; the directory is taken away again once there is one.
pub proof fn law_failed_split_is_told(
    job: SplitJob,
    output: CommandOutput,
    r: SplitAction,
    after: SplitJob,
)
    requires
        output.status_code != Some(0i32),
        job.after_mktemp(output, r, after) || job.after_split(output, r, after)
            || job.after_script(output, r, after),
    ensures
        after.step == SplitStep::Ended,
        r is Fail,
        r->words@.len() >= output.stderr@.len(),
        r->words@.skip(r->words@.len() - output.stderr@.len()) == output.stderr@,
        job.after_mktemp(output, r, after) ==> r->cleanup is None,
        job.after_split(output, r, after) ==> r->cleanup is Some && r->cleanup->0@ == "rm -rf "@
            + job.work_dir@,
        job.after_script(output, r, after) ==> r->cleanup is Some && r->cleanup->0@ == "rm -rf "@
            + job.quoted_dir@ && crate::text::occurs(r->words@, output.stdout@),
        job.after_script(output, r, after) ==> crate::text::occurs(
            r->words@,
            "exit="@ + crate::number::signed_decimal(exit_shown(output.status_code)) + "）"@,
        ),
{
    let words = r->words@;
    assert(words.skip(words.len() - output.stderr@.len()) =~= output.stderr@);
    if job.after_script(output, r, after) {
        let head = "批处理失败（exit="@ + crate::number::signed_decimal(
            match output.status_code {
                Some(code) => code as int,
                None => -1,
            },
        ) + "）\nstdout:\n"@;
        let tail = "\nstderr:\n"@ + output.stderr@;
        assert(words =~= head + output.stdout@ + tail);
        crate::text::law_part_occurs(head, output.stdout@, tail);
        let code = crate::number::signed_decimal(exit_shown(output.status_code));
        reveal_strlit("批处理失败（exit=");
        reveal_strlit("批处理失败（");
        reveal_strlit("exit=");
        reveal_strlit("）\nstdout:\n");
        reveal_strlit("）");
        assert("批处理失败（exit="@ =~= "批处理失败（"@ + "exit="@);
        let rest = "）\nstdout:\n"@.skip(1) + output.stdout@ + tail;
        assert("）\nstdout:\n"@ =~= "）"@ + "）\nstdout:\n"@.skip(1));
        assert(words =~= "批处理失败（"@ + ("exit="@ + code + "）"@) + rest);
        crate::text::law_part_occurs("批处理失败（"@, "exit="@ + code + "）"@, rest);
    }
}

/// The exit code that is shown: minus one for a program that ended without one.
pub open spec fn exit_shown(status_code: Option<i32>) -> int {
    if status_code is Some {
        status_code->0 as int
    } else {
        0int - 1
    }
}

/// Nothing goes over a connection that is not open: a command or a file goes just when the
/// connection was set up and opened and still is open, and the words for one that was cut
/// off end with the reason.
pub proof fn law_only_an_open_connection_is_used(
    global: Option<SSHManager>,
    success: bool,
    stderr: Seq<char>,
)
    ensures
        refusal(global, success, stderr) is None <==> global is Some && global->0.master_started
            && success,
        global is Some && global->0.master_started && !success ==> (refusal(
            global,
            success,
            stderr,
        ) matches Some(words) && words.len() >= stderr.len() && words.skip(
            words.len() - stderr.len(),
        ) == stderr),
{
    if global is Some && global->0.master_started && !success {
        let words = refusal(global, success, stderr)->0;
        assert(words.skip(words.len() - stderr.len()) =~= stderr);
    }
}

/// Every call goes to the host that is configured, over the one connection: the socket, the
/// port and the user with the host are given each time, and the command or the file comes
/// last. The private key is given just where the connection is made or a file is copied.
pub proof fn law_every_call_goes_to_the_host(
    m: SSHManager,
    key_found: bool,
    order: Seq<char>,
    command: Seq<char>,
    local_path: Seq<char>,
    remote_path: Seq<char>,
)
    ensures
        crate::text::gives_option(m.master_list(key_found), "-S"@, m.control_path@),
        crate::text::gives_option(
            m.master_list(key_found),
            "-p"@,
            crate::number::decimal(m.config.port as nat),
        ),
        m.master_list(key_found)[0] == "-M"@,
        m.master_list(key_found).last() == target_text(m.config),
        crate::text::gives_option(m.control_list(order), "-S"@, m.control_path@),
        crate::text::gives_option(
            m.control_list(order),
            "-p"@,
            crate::number::decimal(m.config.port as nat),
        ),
        crate::text::gives_option(m.control_list(order), "-O"@, order),
        m.control_list(order).last() == target_text(m.config),
        crate::text::gives_option(m.ssh_list(command), "-S"@, m.control_path@),
        crate::text::gives_option(
            m.ssh_list(command),
            "-p"@,
            crate::number::decimal(m.config.port as nat),
        ),
        m.ssh_list(command).last() == command,
        m.ssh_list(command)[m.ssh_list(command).len() - 2] == target_text(m.config),
        crate::text::gives_option(
            m.scp_list(key_found, local_path, remote_path),
            "-o"@,
            "ControlPath="@ + m.control_path@,
        ),
        crate::text::gives_option(
            m.scp_list(key_found, local_path, remote_path),
            "-P"@,
            crate::number::decimal(m.config.port as nat),
        ),
        m.scp_list(key_found, local_path, remote_path).last() == target_text(m.config) + ":"@
            + remote_path,
        m.scp_list(key_found, local_path, remote_path)[m.scp_list(
            key_found,
            local_path,
            remote_path,
        ).len() - 2] == local_path,
        target_text(m.config).take(m.config.user@.len() as int) == m.config.user@,
        target_text(m.config)[m.config.user@.len() as int] == '@',
        target_text(m.config).skip(m.config.user@.len() as int + 1) == m.config.host@,
{
    reveal_strlit("@");
    let a = m.master_list(key_found);
    assert(a[1] == "-S"@ && a[2] == m.control_path@);
    assert(a[7] == "-p"@ && a[8] == crate::number::decimal(m.config.port as nat));
    let b = m.control_list(order);
    assert(b[0] == "-S"@ && b[2] == "-p"@ && b[4] == "-O"@);
    let c = m.ssh_list(command);
    assert(c[0] == "-S"@ && c[4] == "-p"@);
    let d = m.scp_list(key_found, local_path, remote_path);
    assert(d[0] == "-o"@ && d[4] == "-P"@ && d[5] == crate::number::decimal(m.config.port as nat));
    let t = target_text(m.config);
    assert(t.take(m.config.user@.len() as int) =~= m.config.user@);
    assert(t.skip(m.config.user@.len() as int + 1) =~= m.config.host@);
}

/// The words for a line that is not one about a chunk show the line.
pub proof fn law_bad_line_is_shown(e: LineError)
    ensures
        e.fault == LineFault::Format ==> crate::text::occurs(e.message(), e.line@),
        e.fault != LineFault::Format ==> e.message() == e.words@,
{
    crate::text::law_part_occurs("分块信息格式错误: "@, e.line@, Seq::empty());
    assert("分块信息格式错误: "@ + e.line@ + Seq::<char>::empty() =~= "分块信息格式错误: "@
        + e.line@);
}

/// The script works in order: first the passphrase of a piece is drawn, then the piece is
/// encrypted, then what came of it is described and given its name, and at last the line on
/// it is put out.
pub proof fn law_script_works_in_order(dir: Seq<char>) -> (between: (
    Seq<char>,
    Seq<char>,
    Seq<char>,
    Seq<char>,
))
    ensures
        script_text(dir) == between.0 + passphrase_command() + between.1 + encrypt_command()
            + between.2 + describe_commands() + between.3 + ("  echo \""@ + line_template()
            + "\"\ndone\n"@),
        crate::text::closes_with(
            describe_commands(),
            "mv \"$enc_file\" \"$final_name\"\n"@,
        ),
{
    let a = "\"\n\nchunk_count=0\nfor chunk_file in chunk_*; do\n  [[ -f \"$chunk_file\" ]] || continue\n\n  # *** 生成 32B 随机口令，Base64 方便 manifest 传输\n"@;
    let c = "\n  (( chunk_count += 1 ))\n\n  # *** 强化：PBKDF2 + SHA256 + 200k 迭代，仍用 AES-256-CBC\n  enc_file=\"${chunk_file}.enc\"\n"@;
    let e = "\n  # *** SHA-256 摘要（替代 MD5）\n"@;
    let g = "  rm -f \"$chunk_file\"\n\n  # 输出：id|filename|password|sha256|size\n"@;
    let h = "  echo \""@ + line_template() + "\"\ndone\n"@;
    let start = script_head() + dir + a;
    assert(script_text(dir) =~= start + passphrase_command() + c + encrypt_command() + e
        + describe_commands() + g + h);
    reveal_strlit("  mv \"$enc_file\" \"$final_name\"\n");
    reveal_strlit("mv \"$enc_file\" \"$final_name\"\n");
    let t = "mv \"$enc_file\" \"$final_name\"\n"@;
    let f = describe_commands();
    let head = f.take(f.len() - t.len());
    assert(f =~= head + t);
    crate::text::law_closes_with_its_end(head, t);
    (start, c, e, g)
}

/// The script stops at the first command that fails, takes every piece that the file was cut
/// into, counts them from one on, and takes each away once it is encrypted.
pub proof fn law_script_takes_every_piece(dir: Seq<char>)
    ensures
        crate::text::occurs(script_text(dir), "set -euxo pipefail\n"@),
        crate::text::occurs(
            script_text(dir),
            "chunk_count=0\nfor chunk_file in chunk_*; do\n"@,
        ),
        crate::text::occurs(script_text(dir), "enc_file=\"${chunk_file}.enc\"\n"@),
        crate::text::occurs(script_text(dir), "rm -f \"$chunk_file\"\n"@),
{
    let s = script_text(dir);
    let head = script_head();
    reveal_strlit("set -euxo pipefail\n");
    reveal_strlit(
        "#!/bin/bash\necho \"[DEBUG] running on $(hostname) as $(whoami)\" >&2\nset -euxo pipefail\ntrap 'echo \"[ERR] line:$LINENO cmd:$BASH_COMMAND\" >&2' ERR\n\ncd \"",
    );
    let n = "set -euxo pipefail\n"@;
    let k = 67int;
    assert(head.subrange(k, k + n.len()) =~= n);
    assert(s.subrange(k, k + n.len()) =~= head.subrange(k, k + n.len()));
    assert(crate::text::occurs_at(s, n, k));

    lemma_script_loop(dir);
}

proof fn lemma_script_loop(dir: Seq<char>)
    ensures
        crate::text::occurs(
            script_text(dir),
            "chunk_count=0\nfor chunk_file in chunk_*; do\n"@,
        ),
        crate::text::occurs(script_text(dir), "enc_file=\"${chunk_file}.enc\"\n"@),
        crate::text::occurs(script_text(dir), "rm -f \"$chunk_file\"\n"@),
{
    let a = "\"\n\nchunk_count=0\nfor chunk_file in chunk_*; do\n  [[ -f \"$chunk_file\" ]] || continue\n\n  # *** 生成 32B 随机口令，Base64 方便 manifest 传输\n"@;
    let c = "\n  (( chunk_count += 1 ))\n\n  # *** 强化：PBKDF2 + SHA256 + 200k 迭代，仍用 AES-256-CBC\n  enc_file=\"${chunk_file}.enc\"\n"@;
    let e = "\n  # *** SHA-256 摘要（替代 MD5）\n"@;
    let g = "  rm -f \"$chunk_file\"\n\n  # 输出：id|filename|password|sha256|size\n"@;
    let h = "  echo \""@ + line_template() + "\"\ndone\n"@;
    let start = script_head() + dir;
    let rest = passphrase_command() + c + encrypt_command() + e + describe_commands() + g + h;
    assert(script_text(dir) =~= start + a + rest);
    crate::text::law_part_occurs(start, a, rest);
    reveal_strlit("chunk_count=0\nfor chunk_file in chunk_*; do\n");
    reveal_strlit(
        "\"\n\nchunk_count=0\nfor chunk_file in chunk_*; do\n  [[ -f \"$chunk_file\" ]] || continue\n\n  # *** 生成 32B 随机口令，Base64 方便 manifest 传输\n",
    );
    let n = "chunk_count=0\nfor chunk_file in chunk_*; do\n"@;
    assert(a.subrange(3, 3int + n.len()) =~= n);
    assert(crate::text::occurs_at(a, n, 3));
    assert(crate::text::occurs(a, n));

    lemma_script_holds(dir, c);
    reveal_strlit("enc_file=\"${chunk_file}.enc\"\n");
    reveal_strlit(
        "\n  (( chunk_count += 1 ))\n\n  # *** 强化：PBKDF2 + SHA256 + 200k 迭代，仍用 AES-256-CBC\n  enc_file=\"${chunk_file}.enc\"\n",
    );
    let n = "enc_file=\"${chunk_file}.enc\"\n"@;
    let k = c.len() - n.len();
    assert(c.subrange(k, k + n.len()) =~= n);
    assert(crate::text::occurs_at(c, n, k));
    assert(crate::text::occurs(c, n));

    let upto = start + a + passphrase_command() + c + encrypt_command() + e + describe_commands();
    assert(script_text(dir) =~= upto + g + h);
    crate::text::law_part_occurs(upto, g, h);
    reveal_strlit("rm -f \"$chunk_file\"\n");
    reveal_strlit("  rm -f \"$chunk_file\"\n\n  # 输出：id|filename|password|sha256|size\n");
    let n = "rm -f \"$chunk_file\"\n"@;
    assert(g.subrange(2, 2int + n.len()) =~= n);
    assert(crate::text::occurs_at(g, n, 2));
    assert(crate::text::occurs(g, n));
}

/// What stands in front of the name of a socket in a directory.
spec fn socket_base(temp_dir: Seq<char>) -> Seq<char> {
    if temp_dir.len() == 0 || temp_dir.last() == '/' {
        temp_dir
    } else {
        temp_dir + "/"@
    }
}

proof fn lemma_socket_parts(temp_dir: Seq<char>, config: Config)
    ensures
        control_socket(temp_dir, config) == socket_base(temp_dir) + ("ssh_ctrl_"@ + config.user@)
            + ("_"@ + config.host@ + "_"@) + crate::number::decimal(config.port as nat),
{
    reveal_strlit("ssh_ctrl_");
    let port = crate::number::decimal(config.port as nat);
    let name = "ssh_ctrl_"@ + config.user@ + "_"@ + config.host@ + "_"@ + port;
    assert("ssh_ctrl_"@.len() == 9 && "ssh_ctrl_"@[0] == 's');
    assert(name.len() > 0 && name[0] == 's');
    assert(control_socket(temp_dir, config) == socket_base(temp_dir) + name);
    assert(socket_base(temp_dir) + name =~= socket_base(temp_dir) + ("ssh_ctrl_"@ + config.user@)
        + ("_"@ + config.host@ + "_"@) + port);
}

proof fn lemma_same_front(front: Seq<char>, a: Seq<char>, b: Seq<char>)
    requires
        front + a == front + b,
    ensures
        a == b,
{
    assert((front + a).skip(front.len() as int) =~= a);
    assert((front + b).skip(front.len() as int) =~= b);
}

/// The socket of a connection lies in the directory for it, and its name says the user, then
/// the host, then the port.
pub proof fn law_socket_is_named_after_the_target(temp_dir: Seq<char>, config: Config)
    ensures
        control_socket(temp_dir, config).take(temp_dir.len() as int) == temp_dir,
        crate::text::closes_with(
            control_socket(temp_dir, config),
            "_"@ + config.host@ + "_"@ + crate::number::decimal(config.port as nat),
        ),
        crate::text::occurs(control_socket(temp_dir, config), "ssh_ctrl_"@ + config.user@),
{
    lemma_socket_parts(temp_dir, config);
    let base = socket_base(temp_dir);
    let user = "ssh_ctrl_"@ + config.user@;
    let host = "_"@ + config.host@ + "_"@;
    let port = crate::number::decimal(config.port as nat);
    let socket = control_socket(temp_dir, config);
    assert(socket =~= base + user + (host + port));
    assert(base.take(temp_dir.len() as int) =~= temp_dir);
    assert(socket.take(temp_dir.len() as int) =~= base.take(temp_dir.len() as int));
    crate::text::law_closes_with_its_end(base + user, host + port);
    crate::text::law_part_occurs(base, user, host + port);
}

/// Connections of a user to two ports of a host share no socket.
pub proof fn law_sockets_differ_by_port(temp_dir: Seq<char>, config: Config, other: Config)
    requires
        config.user@ == other.user@,
        config.host@ == other.host@,
        control_socket(temp_dir, config) == control_socket(temp_dir, other),
    ensures
        config.port == other.port,
{
    lemma_socket_parts(temp_dir, config);
    lemma_socket_parts(temp_dir, other);
    lemma_same_front(
        socket_base(temp_dir) + ("ssh_ctrl_"@ + config.user@) + ("_"@ + config.host@ + "_"@),
        crate::number::decimal(config.port as nat),
        crate::number::decimal(other.port as nat),
    );
    crate::number::law_decimal_read_back(config.port as nat);
    crate::number::law_decimal_read_back(other.port as nat);
}

}

use gmf::chunk::{sha256_hex, ChunkInfo};
use gmf::shell::local::{decrypt_and_merge_local, open_salted, LocalMerge, MergeError};
use gmf::shell::remote::{
    build_manifest, check_connection, chunks_of, encrypt_script, lines_of, parse_chunks, parse_line, scp as scp_over,
    ssh_connect, ssh_run as run_over, Config, LineFault, ManifestFile, SSHManager, SplitAction,
    SplitJob, SplitStep,
};
use gmf::shell::s5cmd::{
    check_s5cmd, cp_args, install_commands, ls_args, mb_args, rb_args, rm_args, run_s5cmd, s5cmd_cp,
    s5cmd_ls, s5cmd_mb, s5cmd_rb, s5cmd_rm, S5cmdStep,
};
use gmf::shell::ssh::{
    config_file, default_config, detect_ssh_command, execute_command, file_exists, scp, speaks_openssh,
    ssh_candidates, ssh_run, test_command, CommandOutput,
};
use openssl::hash::MessageDigest;
use openssl::pkcs5::pbkdf2_hmac;
use openssl::symm::{encrypt, Cipher};

fn out(code: Option<i32>, stdout: &str, stderr: &str) -> CommandOutput {
    CommandOutput {
        status_code: code,
        stdout: stdout.to_string(),
        stderr: stderr.to_string(),
    }
}

fn some(s: &str) -> Option<String> {
    Some(s.to_string())
}

fn config() -> Config {
    Config {
        host: "h".to_string(),
        port: 22,
        user: "u".to_string(),
        private_key_path: some("/k"),
        access_key_id: some("i"),
        secret_access_key: some("s"),
        endpoint: some("e"),
    }
}

fn salted(id: u32, pass: &str, iterations: usize, plain: &[u8]) -> (ChunkInfo, Vec<u8>) {
    let salt = [5u8; 8];
    let mut material = [0u8; 48];
    pbkdf2_hmac(pass.as_bytes(), &salt, iterations, MessageDigest::sha256(), &mut material).unwrap();
    let body = encrypt(Cipher::aes_256_cbc(), &material[..32], Some(&material[32..]), plain).unwrap();
    let mut data = b"Salted__".to_vec();
    data.extend_from_slice(&salt);
    data.extend_from_slice(&body);
    let info = ChunkInfo {
        id,
        filename: format!("gmf_chunk_{id:03}.bin"),
        passphrase_b64: pass.to_string(),
        sha256: sha256_hex(&data),
        size: data.len() as u64,
    };
    (info, data)
}

fn manifest(total_size: u64, cipher: &str, chunks: Vec<ChunkInfo>) -> ManifestFile {
    ManifestFile {
        filename: "f".to_string(),
        total_size,
        chunk_size: 10_485_760,
        total_chunks: chunks.len() as u32,
        cipher: cipher.to_string(),
        kdf: "PBKDF2-SHA256".to_string(),
        kdf_iter: 10,
        salt_len: 8,
        chunks,
    }
}

#[test]
fn salted_chunks_make_up_the_file() {
    let (a, first) = salted(1, "pa", 10, b"hello ");
    let (b, second) = salted(2, "pb", 10, b"world");
    let m = manifest(11, "AES-256-CBC", vec![a, b]);
    let stored = vec![first, second];
    assert_eq!(decrypt_and_merge_local(&m, &stored).unwrap().unwrap(), b"hello world");
    let short = ManifestFile { total_size: 12, ..m };
    let e = decrypt_and_merge_local(&short, &stored).unwrap().unwrap_err();
    assert!(matches!(e, MergeError::TotalSize { manifest: 12, actual: 11 }));
    assert_eq!(e.text(), "解密完成但大小不符: manifest=12 实际=11");
}

#[test]
fn salted_chunks_that_do_not_open() {
    let (info, data) = salted(7, "p", 10, b"x");
    let e = open_salted(&info, "AES-256-CBC", 10, b"other").unwrap().unwrap_err();
    assert_eq!(
        e.text(),
        format!(
            "分块 7 SHA-256 不一致 (manifest={}, 计算={})",
            info.sha256,
            sha256_hex(b"other")
        )
    );
    let e = open_salted(&info, "AES-128-CBC", 10, &data).unwrap().unwrap_err();
    assert_eq!(e.text(), "暂不支持算法 AES-128-CBC");
    let plain = ChunkInfo { sha256: sha256_hex(b"not salted at all"), ..info };
    let e = open_salted(&plain, "AES-256-CBC", 10, b"not salted at all").unwrap().unwrap_err();
    assert_eq!(e.text(), "分块 7 缺少 \"Salted__\" 头");
    let cut = &data[..20];
    let broken = ChunkInfo { sha256: sha256_hex(cut), ..plain };
    let e = open_salted(&broken, "AES-256-CBC", 10, cut).unwrap().unwrap_err();
    assert!(matches!(&e, MergeError::Decrypt(words) if !words.is_empty()));
    assert_eq!(e.text(), match &e {
        MergeError::Decrypt(words) => words.clone(),
        other => panic!("{other:?}"),
    });
}

#[test]
fn a_file_is_put_together_chunk_by_chunk() {
    let (a, first) = salted(1, "pa", 10, b"hello ");
    let (b, second) = salted(2, "pb", 10, b"world");
    let m = manifest(11, "AES-256-CBC", vec![a, b]);
    let mut merge = LocalMerge::new();
    assert_eq!(merge.next_file(&m, "d").unwrap(), "d/gmf_chunk_001.bin");
    assert_eq!(merge.step(&m, &first).unwrap().unwrap(), b"hello ");
    assert!(matches!(merge.step(&m, b"x").unwrap(), Err(MergeError::Sha256 { id: 2, .. })));
    assert_eq!((merge.opened, merge.total_written), (1, 6));
    assert_eq!(merge.next_file(&m, "d/").unwrap(), "d/gmf_chunk_002.bin");
    assert_eq!(merge.step(&m, &second).unwrap().unwrap(), b"world");
    assert_eq!(merge.next_file(&m, "d"), None);
    assert!(merge.finish(&m).is_ok());
    let long = ManifestFile { total_size: 12, ..m };
    assert!(matches!(
        merge.finish(&long),
        Err(MergeError::TotalSize { manifest: 12, actual: 11 })
    ));
}

#[test]
fn only_chunks_that_reach_the_cipher_meet_its_limits() {
    let (info, data) = salted(7, "p", 10, b"x");
    assert!(open_salted(&info, "AES-256-CBC", u32::MAX, &data).is_none());
    assert!(matches!(
        open_salted(&info, "AES-256-CBC", u32::MAX, b"other"),
        Some(Err(MergeError::Sha256 { id: 7, .. }))
    ));
    let mut m = manifest(1, "AES-256-CBC", vec![info]);
    m.kdf_iter = u32::MAX;
    assert!(decrypt_and_merge_local(&m, &vec![data]).is_none());
    assert!(matches!(
        decrypt_and_merge_local(&m, &vec![b"other".to_vec()]),
        Some(Err(MergeError::Sha256 { .. }))
    ));
    let mut empty = manifest(0, "AES-256-CBC", vec![]);
    empty.kdf_iter = u32::MAX;
    assert_eq!(decrypt_and_merge_local(&empty, &vec![]).unwrap().unwrap(), b"");
}

#[test]
fn what_a_command_left() {
    let o = execute_command(Some(3), "回".as_bytes(), &[b'a', 0xff]);
    assert_eq!((o.status_code, o.stdout.as_str(), o.stderr.as_str()), (Some(3), "回", "a\u{fffd}"));
    assert_eq!(execute_command(None, b"", b"").status_code, None);
}

fn said(s: &str) -> Option<Vec<u8>> {
    Some(s.as_bytes().to_vec())
}

#[test]
fn ssh_is_found() {
    assert_eq!(ssh_candidates(false), ["ssh"]);
    assert_eq!(ssh_candidates(true), ["ssh.exe", "ssh"]);
    assert!(speaks_openssh("OpenSSH_9.6p1"));
    assert!(!speaks_openssh("PuTTY"));
    let names = ssh_candidates(true);
    assert_eq!(detect_ssh_command(&names, &vec![None, said("openssh")]).unwrap(), "ssh");
    assert_eq!(
        detect_ssh_command(&names, &vec![said("OPENSSH for Windows"), said("openssh")]).unwrap(),
        "ssh.exe"
    );
    assert_eq!(
        detect_ssh_command(&names, &vec![None, said("x")]).unwrap_err(),
        "未找到可用的 SSH 命令，请安装 OpenSSH 客户端"
    );
}

#[test]
fn a_configuration_for_a_start() {
    let c = default_config();
    assert_eq!((c.host.as_str(), c.port, c.user.as_str()), ("192.168.1.100", 22, "root"));
    let text = config_file("a = 1\nprivate_key_path = \"your_private_key_path\"\n");
    assert!(text.starts_with("# SSH 连接配置\n# host: "));
    assert!(text.ends_with("\n\na = 1\nprivate_key_path = 'your_private_key_path'\n"));
}

#[test]
fn arguments_for_ssh() {
    let mut c = default_config();
    c.private_key_path = some("/k");
    assert_eq!(
        ssh_run(&c, true, "ls"),
        ["-p", "22", "-i", "/k", "root@192.168.1.100", "ls"]
    );
    assert_eq!(ssh_run(&c, false, "ls"), ["-p", "22", "root@192.168.1.100", "ls"]);
    assert_eq!(
        scp(&c, true, "a", "/b"),
        ["-P", "22", "-i", "/k", "a", "root@192.168.1.100:/b"]
    );
    c.private_key_path = some("");
    assert_eq!(scp(&c, true, "a", "/b"), ["-P", "22", "a", "root@192.168.1.100:/b"]);
}

#[test]
fn whether_a_file_is_there() {
    assert_eq!(test_command("/f"), "test -e /f");
    assert_eq!(file_exists(&out(Some(0), "", "")), Ok(true));
    assert_eq!(file_exists(&out(Some(1), "", "")), Ok(false));
    assert_eq!(
        file_exists(&out(Some(-2), "", "err")).unwrap_err(),
        "检查文件时发生意外错误 (退出码: -2): err"
    );
    assert_eq!(file_exists(&out(None, "", "")).unwrap_err(), "检查文件的远程进程被信号终止");
}

#[test]
fn a_lasting_connection() {
    let mut m = SSHManager::new("/tmp", config(), "ssh".to_string());
    let ctl = "/tmp/ssh_ctrl_u_h_22";
    assert_eq!(
        m.master_args(true),
        ["-M", "-S", ctl, "-f", "-N", "-o", "ControlPersist=10m", "-p", "22", "-i", "/k", "u@h"]
    );
    assert_eq!(m.check_args(), ["-S", ctl, "-p", "22", "-O", "check", "u@h"]);
    assert_eq!(m.exit_args(), ["-S", ctl, "-p", "22", "-O", "exit", "u@h"]);
    assert_eq!(
        m.ensure_master_connection(true, "").unwrap_err(),
        "SSH master 连接未建立"
    );
    assert_eq!(m.master_opened(false, "x").unwrap_err(), "SSH master 连接失败: x");
    assert!(m.master_opened(true, "").is_ok());
    assert!(m.ensure_master_connection(true, "").is_ok());
    assert_eq!(
        m.ensure_master_connection(false, "x").unwrap_err(),
        "SSH master 连接已断开: x"
    );
    let mut global = None;
    let unset = "SSH连接未初始化，请先调用 check_ssh_connection()";
    assert_eq!(check_connection(&global).unwrap_err(), unset);
    assert_eq!(run_over(&global, true, "", "ls").unwrap_err(), unset);
    assert_eq!(scp_over(&global, true, "", false, "a", "b").unwrap_err(), unset);
    let closed = Some(SSHManager::new("/tmp", config(), "ssh".to_string()));
    assert_eq!(check_connection(&closed).unwrap_err(), "SSH master 连接未建立");
    assert_eq!(run_over(&closed, true, "", "ls").unwrap_err(), "SSH master 连接未建立");
    assert!(ssh_connect(&mut global, m).is_ok());
    let other = SSHManager::new("/tmp", config(), "ssh".to_string());
    assert_eq!(ssh_connect(&mut global, other).unwrap_err(), "SSH管理器已经初始化");
    assert_eq!(
        check_connection(&global).unwrap(),
        ["-S", ctl, "-p", "22", "-O", "check", "u@h"]
    );
    let broken = "SSH master 连接已断开: gone";
    assert_eq!(run_over(&global, false, "gone", "ls").unwrap_err(), broken);
    assert_eq!(scp_over(&global, false, "gone", true, "a", "b").unwrap_err(), broken);
    assert_eq!(
        run_over(&global, true, "", "ls").unwrap(),
        ["-S", ctl, "-o", "ControlMaster=auto", "-p", "22", "u@h", "ls"]
    );
    let path = format!("ControlPath={ctl}");
    assert_eq!(
        scp_over(&global, true, "", false, "a", "b").unwrap(),
        ["-o", path.as_str(), "-o", "ControlMaster=auto", "-P", "22", "a", "u@h:b"]
    );
}

#[test]
fn lines_about_chunks() {
    let c = parse_line("3|c.bin|pass|ab|12").unwrap();
    assert_eq!((c.id, c.filename.as_str(), c.size), (3, "c.bin", 12));
    assert_eq!((c.passphrase_b64.as_str(), c.sha256.as_str()), ("pass", "ab"));
    let e = parse_line("3|c|p|ab").unwrap_err();
    assert_eq!((e.fault, e.text().as_str()), (LineFault::Format, "分块信息格式错误: 3|c|p|ab"));
    assert_eq!(parse_line("3|c|p|ab|1|2").unwrap_err().fault, LineFault::Format);
    let e = parse_line("x|c|p|ab|1").unwrap_err();
    assert_eq!((e.fault, e.text()), (LineFault::Id, "x".parse::<u32>().unwrap_err().to_string()));
    let e = parse_line("4294967296|c|p|ab|1").unwrap_err();
    assert_eq!(e.fault, LineFault::Id);
    assert_eq!(e.text(), "4294967296".parse::<u32>().unwrap_err().to_string());
    assert_eq!(parse_line("+7|c|p|ab|1").unwrap().id, 7);
    let e = parse_line("1|c|p|ab|-1").unwrap_err();
    assert_eq!((e.fault, e.text()), (LineFault::Size, "-1".parse::<u64>().unwrap_err().to_string()));
    assert_eq!(lines_of(" a \r\n\n  \nb"), ["a", "b"]);
    let e = parse_chunks("1|c|p|ab|1\nbad\nworse\n").unwrap_err();
    assert_eq!((e.line.as_str(), e.fault), ("bad", LineFault::Format));
}

#[test]
fn a_manifest_is_in_order() {
    let m = build_manifest("f", 20_971_521, "2|b|p|h|1\n1|a|p|h|2\n").unwrap();
    assert_eq!(m.chunks.iter().map(|c| c.id).collect::<Vec<u32>>(), [1, 2]);
    assert_eq!((m.total_chunks, m.chunk_size, m.kdf_iter, m.salt_len), (3, 10_485_760, 200_000, 8));
    assert_eq!((m.cipher.as_str(), m.kdf.as_str()), ("AES-256-CBC", "PBKDF2-SHA256"));
    assert_eq!(chunks_of(0), 0);
    assert_eq!(chunks_of(10_485_760), 1);
}

#[test]
fn a_file_is_split_remotely() {
    let (mut job, a) = SplitJob::encrypt_and_split("/d/my file".to_string(), "my file".to_string(), 5);
    assert!(matches!(a, SplitAction::Run(c) if c == "mktemp -d"));
    match job.step(out(Some(0), "/tmp/x y\n", "")) {
        SplitAction::Run(c) => assert_eq!(
            c,
            "cd '/tmp/x y' && FILEPATH='/d/my file' && split -b 10M -d \"$FILEPATH\" chunk_"
        ),
        other => panic!("{other:?}"),
    }
    match job.step(out(Some(0), "", "")) {
        SplitAction::Run(c) => assert_eq!(c, encrypt_script("/tmp/x y")),
        other => panic!("{other:?}"),
    }
    match job.step(out(Some(0), "1|a|p|h|2\n", "")) {
        SplitAction::Finish(m, dir) => {
            assert_eq!((m.filename.as_str(), m.total_size), ("my file", 5));
            assert_eq!(dir, job.work_dir);
            assert_eq!(dir, "/tmp/x y");
        }
        other => panic!("{other:?}"),
    }
    assert_eq!(job.step, SplitStep::Ended);
}

fn failed(a: SplitAction) -> (Option<String>, String) {
    match a {
        SplitAction::Fail { cleanup, words } => (cleanup, words),
        other => panic!("{other:?}"),
    }
}

#[test]
fn a_split_that_fails() {
    let begin = |path: &str| SplitJob::encrypt_and_split(path.to_string(), "f".to_string(), 5).0;
    let mut job = begin("/f");
    assert_eq!(failed(job.step(out(Some(1), "", "x"))), (None, "创建临时目录失败: x".to_string()));
    let mut job = begin("/f\0");
    assert_eq!(
        failed(job.step(out(Some(0), "/t", ""))),
        (None, "cannot shell-quote string containing nul byte".to_string())
    );
    let mut job = begin("/f");
    job.step(out(Some(0), "/t t\n", ""));
    assert_eq!(
        failed(job.step(out(None, "", "x"))),
        (some("rm -rf /t t"), "文件分割失败: x".to_string())
    );
    let mut job = begin("/f");
    job.step(out(Some(0), "/t t\n", ""));
    job.step(out(Some(0), "", ""));
    assert_eq!(
        failed(job.step(out(None, "o", "e"))),
        (some("rm -rf '/t t'"), "批处理失败（exit=-1）\nstdout:\no\nstderr:\ne".to_string())
    );
    let mut job = begin("/f");
    job.step(out(Some(0), "/t\n", ""));
    job.step(out(Some(0), "", ""));
    match job.step(out(Some(0), "bad\n", "")) {
        SplitAction::BadLine(e) => assert_eq!(e.line, "bad"),
        other => panic!("{other:?}"),
    }
}

#[test]
fn commands_for_the_store() {
    let mut c = config();
    assert_eq!(
        run_s5cmd(&c, "ls").unwrap(),
        "AWS_ACCESS_KEY_ID=i AWS_SECRET_ACCESS_KEY=s AWS_REGION='auto' ~/.local/bin/s5cmd --endpoint-url e ls"
    );
    c.endpoint = None;
    assert_eq!(run_s5cmd(&c, "ls").unwrap_err(), "配置文件中未找到 endpoint");
    c.secret_access_key = None;
    assert_eq!(run_s5cmd(&c, "ls").unwrap_err(), "配置文件中未找到 secret_access_key");
    c.access_key_id = None;
    assert_eq!(run_s5cmd(&c, "ls").unwrap_err(), "配置文件中未找到 access_key_id");
    assert_eq!(ls_args("s3://b"), "ls s3://b");
    assert_eq!(cp_args("/f", "b/k"), "cp /f s3://b/k");
    assert_eq!(rm_args("b/k"), "rm s3://b/k");
    assert_eq!(mb_args("b"), "mb s3://b");
    assert_eq!(rb_args("b"), "rb s3://b");
}

#[test]
fn outcomes_in_the_store() {
    let one = |err: &str| out(Some(1), "", err);
    assert_eq!(s5cmd_ls("p", &out(Some(0), "list", "")).unwrap(), "list");
    assert_eq!(s5cmd_ls("p", &one("x NoSuchBucket y")).unwrap_err(), "存储桶或路径不存在: p");
    assert_eq!(s5cmd_ls("p", &one("AccessDenied")).unwrap_err(), "访问被拒绝，请检查访问凭证和权限");
    assert_eq!(s5cmd_ls("p", &one(" odd \n")).unwrap_err(), "列出目录失败: odd");
    assert_eq!(
        s5cmd_ls("p", &out(Some(2), "", " odd \n")).unwrap_err(),
        "s5cmd ls 命令失败 (退出码: 2): odd"
    );
    assert_eq!(s5cmd_ls("p", &out(None, "", "")).unwrap_err(), "s5cmd ls 进程被信号终止");
    assert_eq!(s5cmd_cp("l", "r", &one("NoSuchBucket")).unwrap_err(), "目标存储桶不存在: r");
    assert_eq!(s5cmd_cp("l", "r", &one("AccessDenied")).unwrap_err(), "访问被拒绝，请检查上传权限");
    assert_eq!(s5cmd_cp("l", "r", &one("no such file")).unwrap_err(), "本地文件不存在: l");
    assert_eq!(s5cmd_cp("l", "r", &one("x")).unwrap_err(), "上传文件失败: x");
    assert_eq!(s5cmd_rm("k", &one("NoSuchKey")).unwrap_err(), "要删除的文件不存在: k");
    assert_eq!(s5cmd_rm("k", &one("NoSuchBucket")).unwrap_err(), "存储桶不存在: k");
    assert_eq!(s5cmd_rm("k", &one("AccessDenied")).unwrap_err(), "访问被拒绝，请检查删除权限");
    assert_eq!(s5cmd_rm("k", &one("x")).unwrap_err(), "删除文件失败: x");
    assert_eq!(s5cmd_mb("b", &one("already exists")).unwrap_err(), "存储桶已存在: b");
    assert_eq!(s5cmd_mb("b", &one("AccessDenied")).unwrap_err(), "访问被拒绝，请检查创建存储桶的权限");
    assert_eq!(s5cmd_mb("b", &one("InvalidBucketName")).unwrap_err(), "存储桶名称无效: b");
    assert_eq!(s5cmd_mb("b", &one("x")).unwrap_err(), "创建存储桶失败: x");
    assert_eq!(s5cmd_rb("b", &one("does not exist")).unwrap_err(), "存储桶不存在: b");
    assert_eq!(
        s5cmd_rb("b", &one("BucketNotEmpty")).unwrap_err(),
        "存储桶不为空，无法删除: b。请先清空存储桶中的所有文件"
    );
    assert_eq!(s5cmd_rb("b", &one("AccessDenied")).unwrap_err(), "访问被拒绝，请检查删除存储桶的权限");
    assert_eq!(s5cmd_rb("b", &one("x")).unwrap_err(), "删除存储桶失败: x");
}

#[test]
fn the_store_program_is_installed() {
    assert_eq!(check_s5cmd(true, false), S5cmdStep::ShowVersion);
    assert_eq!(check_s5cmd(false, false), S5cmdStep::Install);
    assert_eq!(check_s5cmd(false, true), S5cmdStep::Fail);
    assert_eq!(install_commands().len(), 4);
    assert_eq!(install_commands()[0], "mkdir -p ~/.local/bin");
}

use gmf::client::config::{
    calculate_hash, get_config, load_config, save_config, Config, Login, LoginAction, LoginEvent,
    LoginStep,
};
use gmf::client::ssh::{
    check_auth, check_extracted, choose_auth, exec_once, name_archive, write_extract_command, Auth,
    ExecEvent, ExecOutput, SSHConfig,
};
use gmf::common::r2::R2Config;

fn config(hash: &str) -> Config {
    Config {
        time: 5,
        ssh_config: SSHConfig {
            hostname: "h".to_string(),
            port: 22,
            user: "u".to_string(),
            password: None,
            private_key_path: None,
        },
        r2_config: R2Config::default(),
        hash: hash.to_string(),
    }
}

fn answer(l: &mut Login, text: &str) -> LoginAction {
    l.login(LoginEvent::Answer(text.to_string())).unwrap()
}

fn label(a: LoginAction) -> String {
    match a {
        LoginAction::Ask(label) => label,
        other => panic!("{other:?}"),
    }
}

#[test]
fn a_configuration_is_trusted_by_its_hash() {
    let json = "{\"time\":5}";
    let hash = calculate_hash(json);
    assert_eq!(hash, format!("{:x}", xxhash_rust::xxh3::xxh3_64(json.as_bytes())));
    assert!(load_config(true, config(&hash), json, "/c").is_ok());
    assert_eq!(load_config(false, config(&hash), json, "/c").unwrap_err(), "配置文件不存在");
    assert_eq!(
        load_config(true, config("0"), json, "/c").unwrap_err(),
        "配置文件 /c 数据校验失败，请重新登录设置"
    );
    let saved = save_config(config(""), 77, json);
    assert_eq!((saved.time, saved.hash), (77, hash));
}

#[test]
fn the_configuration_is_loaded_once() {
    let mut global = None;
    assert_eq!(get_config(&mut global, Err("no".to_string())).unwrap_err(), "no");
    assert_eq!(get_config(&mut global, Ok(config("a"))).unwrap().hash, "a");
    assert_eq!(get_config(&mut global, Ok(config("b"))).unwrap().hash, "a");
    assert_eq!(get_config(&mut global, Err("no".to_string())).unwrap().hash, "a");
}

#[test]
fn all_questions_are_asked() {
    let (mut l, a) = Login::new(true);
    assert_eq!(label(a), "配置文件已存在，是否覆盖？(y/N)");
    assert_eq!(label(answer(&mut l, " Y \n")), "主机地址");
    assert_eq!(label(answer(&mut l, "example.org\n")), "端口");
    assert_eq!(label(answer(&mut l, "2222\n")), "用户名");
    assert_eq!(label(answer(&mut l, "me\n")), "私钥路径 (推荐，回车跳过)");
    match answer(&mut l, "~/.ssh/id\n") {
        LoginAction::Resolve(p) => assert_eq!(p, "~/.ssh/id"),
        other => panic!("{other:?}"),
    }
    let a = l.login(LoginEvent::Resolved("/home/me/.ssh/id".to_string())).unwrap();
    assert_eq!(label(a), "密码 (已设置私钥，回车跳过)");
    assert!(matches!(answer(&mut l, "\n"), LoginAction::TestSsh));
    let a = l.login(LoginEvent::SshConnected).unwrap();
    assert_eq!(label(a), "S3 API Endpoint");
    assert_eq!(label(answer(&mut l, "https://e\n")), "AccessKeyID");
    assert_eq!(label(answer(&mut l, "id\n")), "SecretAccessKey");
    assert!(matches!(answer(&mut l, "key\n"), LoginAction::TestR2));
    assert!(matches!(l.login(LoginEvent::R2Connected).unwrap(), LoginAction::Save));
    assert_eq!(l.step, LoginStep::Saving);
    let s = l.ssh_config;
    assert_eq!((s.hostname.as_str(), s.port, s.user.as_str()), ("example.org", 2222, "me"));
    assert_eq!(s.private_key_path.as_deref(), Some("/home/me/.ssh/id"));
    assert!(s.password.is_none());
    let r = l.r2_config;
    assert_eq!((r.endpoint.as_str(), r.access_key_id.as_str()), ("https://e", "id"));
    assert_eq!(r.secret_access_key, "key");
}

#[test]
fn questions_that_end_early() {
    let (mut l, _) = Login::new(true);
    match answer(&mut l, "n") {
        LoginAction::Cancelled(w) => assert_eq!(w, "已取消配置更改。"),
        other => panic!("{other:?}"),
    }
    let (mut l, a) = Login::new(false);
    assert_eq!(label(a), "主机地址");
    answer(&mut l, "h");
    let e = l.login(LoginEvent::Answer("65536".to_string())).unwrap_err();
    assert_eq!(e, "无效的端口号");
    let (mut l, _) = Login::new(false);
    answer(&mut l, "h");
    answer(&mut l, "65535");
    answer(&mut l, "u");
    assert_eq!(label(answer(&mut l, "")), "密码");
    assert!(matches!(answer(&mut l, " pw "), LoginAction::TestSsh));
    assert_eq!(l.ssh_config.password.as_deref(), Some("pw"));
}

#[test]
fn the_password_comes_first() {
    let some = |s: &str| Some(s.to_string());
    assert!(matches!(choose_auth(&some("p"), &some("k")), Ok(Auth::Password(p)) if p == "p"));
    assert!(matches!(choose_auth(&None, &some("k")), Ok(Auth::PrivateKey(k)) if k == "k"));
    assert_eq!(choose_auth(&None, &None).unwrap_err(), "未配置认证方式：需要密码或私钥路径");
    assert!(check_auth(true).is_ok());
    assert_eq!(check_auth(false).unwrap_err(), "SSH 认证失败");
}

#[test]
fn a_command_runs_to_its_end() {
    let events = vec![
        ExecEvent::Data(b"out ".to_vec()),
        ExecEvent::ExtendedData { ext: 1, data: b"err".to_vec() },
        ExecEvent::ExtendedData { ext: 2, data: b"lost".to_vec() },
        ExecEvent::Other,
        ExecEvent::ExitStatus(3),
        ExecEvent::Data(vec![0xff]),
    ];
    let out = exec_once(&events).unwrap();
    assert_eq!((out.exit_code, out.output.as_str()), (3, "out err\u{fffd}"));
    assert_eq!(
        exec_once(&vec![ExecEvent::Other]).unwrap_err(),
        "远程命令执行完毕，但未收到退出码"
    );
}

#[test]
fn an_archive_is_unpacked() {
    let archive = name_archive(17);
    assert_eq!(archive, "/tmp/gmf_upload_17.tar.gz");
    assert_eq!(
        write_extract_command("$HOME/b", &archive),
        "mkdir -p \"$HOME/b\" && tar -xf \"/tmp/gmf_upload_17.tar.gz\" -C \"$HOME/b\" && rm \"/tmp/gmf_upload_17.tar.gz\""
    );
    let out = |code| ExecOutput { exit_code: code, output: "tar: x".to_string() };
    assert!(check_extracted(&out(0)).is_ok());
    assert_eq!(check_extracted(&out(2)).unwrap_err(), "解压失败，退出码: 2, 输出: tar: x");
}

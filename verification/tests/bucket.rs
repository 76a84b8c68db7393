use gmf::client::r2::{
    clear_bucket, delete_bucket, delete_object as client_delete, get_object as client_get,
    list_all_object_keys, DeleteFailure,
};
use gmf::common::r2::{
    config_from_env, delete_object, get_bucket, get_object, init, init_step, list_objects,
    put_object, store_bucket, Emptying, InitAction, InitEvent, InitState, R2Config,
};

fn some(s: &str) -> Option<String> {
    Some(s.to_string())
}

#[test]
fn the_environment_must_be_complete() {
    let c = config_from_env(some("e"), some("i"), some("s")).unwrap();
    assert_eq!((c.endpoint.as_str(), c.access_key_id.as_str()), ("e", "i"));
    assert_eq!(c.secret_access_key, "s");
    assert_eq!(config_from_env(None, None, None).unwrap_err(), "环境变量 'ENDPOINT' 未设置");
    assert_eq!(
        config_from_env(some("e"), None, None).unwrap_err(),
        "环境变量 'ACCESS_KEY_ID' 未设置"
    );
    assert_eq!(
        config_from_env(some("e"), some("i"), None).unwrap_err(),
        "环境变量 'SECRET_ACCESS_KEY' 未设置"
    );
    assert_eq!(R2Config::default().endpoint, "");
}

#[test]
fn the_remote_side_waits_for_the_bucket() {
    let (mut state, action) = init(false);
    assert!(matches!(action, InitAction::Check));
    for _ in 0..4 {
        let (next, action) = init_step(state, InitEvent::Exists(false));
        assert!(matches!(action, InitAction::WaitAndCheck(500)));
        state = next;
    }
    let (last, action) = init_step(state, InitEvent::Exists(false));
    assert_eq!(last, InitState::Failed);
    match action {
        InitAction::WaitAndFail(500, words) => {
            assert_eq!(words, "R2 bucket 'gmf' 在默认配置下未检测到存在（尝试 5 次）");
        }
        other => panic!("{other:?}"),
    }
    let (found, action) = init_step(state, InitEvent::Exists(true));
    assert_eq!(found, InitState::Found);
    assert!(matches!(action, InitAction::Store));
}

#[test]
fn the_client_makes_the_bucket() {
    let (state, _) = init(true);
    assert_eq!(state, InitState::Checking);
    let (state, action) = init_step(state, InitEvent::Exists(false));
    assert!(matches!(action, InitAction::Create));
    let refused = InitEvent::Created {
        success: false,
        response_code: 409,
        response_text: "conflict".to_string(),
    };
    match init_step(state, refused) {
        (InitState::Failed, InitAction::Fail(words)) => {
            assert_eq!(words, "创建 R2 bucket 失败: HTTP 409, 响应内容：conflict");
        }
        other => panic!("{other:?}"),
    }
    let made = InitEvent::Created {
        success: true,
        response_code: 200,
        response_text: String::new(),
    };
    assert!(matches!(init_step(state, made), (InitState::Found, InitAction::Store)));
    assert!(matches!(
        init_step(InitState::Checking, InitEvent::Exists(true)),
        (InitState::Found, InitAction::Store)
    ));
}

#[test]
fn the_bucket_is_kept_once() {
    let mut stored = false;
    assert_eq!(get_bucket(stored).unwrap_err(), "R2 Bucket 尚未初始化，请先调用 init()");
    assert!(store_bucket(&mut stored).is_ok());
    assert!(stored && get_bucket(stored).is_ok());
    assert_eq!(store_bucket(&mut stored).unwrap_err(), "R2 Bucket 已初始化，不可重复初始化");
}

#[test]
fn keys_of_all_pages() {
    let page = |names: &[&str]| names.iter().map(|s| s.to_string()).collect::<Vec<String>>();
    let pages = vec![page(&["1", "2"]), page(&[]), page(&["3"])];
    assert_eq!(list_objects(pages.clone()), page(&["1", "2", "3"]));
    assert_eq!(list_all_object_keys(pages), page(&["1", "2", "3"]));
    assert!(list_objects(Vec::new()).is_empty());
}

#[test]
fn answers_of_the_bucket() {
    assert!(delete_object("1", 204).is_ok());
    assert_eq!(delete_object("1", 200).unwrap_err(), "删除对象失败, key=1, 状态码=200");
    assert_eq!(get_object("1", 200, vec![1, 2]).unwrap(), [1, 2]);
    assert_eq!(
        get_object("1", 404, vec![]).unwrap_err(),
        "Failed to download object, key=1, status_code=404"
    );
    assert!(put_object("1", 200).is_ok());
    assert_eq!(
        put_object("1", 500).unwrap_err(),
        "Failed to upload object, key=1, status_code=500"
    );
}

#[test]
fn the_bucket_is_emptied_object_by_object() {
    let mut e = Emptying::new(vec!["a".to_string(), "b".to_string()]);
    assert_eq!(e.next().as_deref(), Some("a"));
    assert!(e.answered(204).is_ok());
    assert_eq!(e.next().as_deref(), Some("b"));
    assert_eq!(e.answered(403).unwrap_err(), "删除对象失败, key=b, 状态码=403");
    assert_eq!(e.next().as_deref(), Some("b"));
    assert!(e.answered(204).is_ok());
    assert!(e.next().is_none());
}

#[test]
fn answers_to_the_client() {
    assert_eq!(client_get("1", 200, vec![9]).unwrap(), [9]);
    assert_eq!(
        client_get("1", 404, b"<a>\n\"\xff".to_vec()).unwrap_err(),
        "下载对象 '1' 失败，API 返回非成功状态码: 404, 响应体: \"<a>\\n\\\"\u{fffd}\""
    );
    assert!(client_delete("1", 204, b"").is_ok());
    assert_eq!(
        client_delete("1", 500, b"").unwrap_err(),
        "删除对象 '1' 失败，API 返回非成功状态码: 500, 响应体: \"\""
    );
}

#[test]
fn objects_that_stay_are_listed() {
    assert!(clear_bucket(&vec![]).is_ok());
    let failure = |k: &str, r: &str| DeleteFailure { key: k.to_string(), reason: r.to_string() };
    assert_eq!(
        clear_bucket(&vec![failure("1", "x"), failure("2", "y")]).unwrap_err(),
        "清空存储桶时发生 2 个错误:\n  - 删除 '1' 失败: x\n  - 删除 '2' 失败: y"
    );
    assert!(delete_bucket(204).is_ok());
    assert_eq!(
        delete_bucket(409).unwrap_err(),
        "删除存储桶 'gmf' 失败，API 返回非预期的状态码: 409 (预期为 204)"
    );
}

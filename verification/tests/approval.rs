use spatiotemporal_agent::approval::{ApprovalPolicy, ApprovalQueue};
use spatiotemporal_agent::error::Error;
use spatiotemporal_agent::json::{Json, JsonNumber};

fn object(fields: Vec<(&str, Json)>) -> Json {
    Json::Object(fields.into_iter().map(|(k, v)| (k.to_owned(), v)).collect())
}

fn text(s: &str) -> Json {
    Json::Str(s.to_owned())
}

#[test]
fn policy_requires_configured_kinds() {
    let policy = ApprovalPolicy::from_config(&object(vec![
        ("require", Json::Array(vec![text("script"), text("patch")])),
        ("max_queue", Json::Number(JsonNumber::PosInt(3))),
    ]));
    assert!(policy.requires_approval("script"));
    assert!(policy.requires_approval("patch"));
    assert!(!policy.requires_approval("wasm"));
    assert_eq!(policy.max_queue, 3);
}

#[test]
fn policy_defaults_and_minimum_queue() {
    let policy = ApprovalPolicy::from_config(&object(vec![("max_queue", Json::Number(JsonNumber::PosInt(0)))]));
    assert_eq!(policy.max_queue, 1);
    for kind in ["script", "wasm", "process", "patch"] {
        assert!(policy.requires_approval(kind));
    }
    let default_policy = ApprovalPolicy::from_config(&Json::Null);
    assert_eq!(default_policy.max_queue, 10);
}

fn propose(queue: &mut ApprovalQueue, id: &str) -> Result<(), Error> {
    queue
        .propose_install(
            "s1".to_owned(),
            id.to_owned(),
            "script".to_owned(),
            format!("summary {id}"),
            "preview".to_owned(),
            Some(3),
            Vec::new(),
            None,
        )
        .map(|_| ())
}

#[test]
fn queue_is_first_in_first_out() {
    let mut queue = ApprovalQueue::new("/tmp/ws".to_owned());
    propose(&mut queue, "a").unwrap();
    propose(&mut queue, "b").unwrap();
    assert_eq!(queue.pending().unwrap().id, "a");
    let taken = queue.approve(None).unwrap();
    assert_eq!(taken.install.id, "a");
    assert_eq!(queue.pending().unwrap().id, "b");
    assert_eq!(queue.pending_all().len(), 1);
}

#[test]
fn rejecting_by_id_undoes_the_proposal() {
    let mut queue = ApprovalQueue::new("/tmp/ws".to_owned());
    propose(&mut queue, "a").unwrap();
    propose(&mut queue, "b").unwrap();
    let (pending, message) = queue.reject(Some("b"), Some("不需要")).unwrap();
    assert_eq!(pending.install.id, "b");
    assert_eq!(message, "已拒绝 `b`：不需要");
    let ids: Vec<String> = queue.pending_all().into_iter().map(|p| p.id).collect();
    assert_eq!(ids, vec!["a".to_owned()]);
}

#[test]
fn duplicate_and_full_queue_are_refused() {
    let mut queue = ApprovalQueue::new("/tmp/ws".to_owned());
    let mut policy = queue.policy();
    policy.max_queue = 2;
    queue.set_policy(policy);
    propose(&mut queue, "a").unwrap();
    match propose(&mut queue, "a") {
        Err(Error::Component(m)) => assert_eq!(m, "已存在 id 为 `a` 的待审批请求"),
        other => panic!("unexpected {other:?}"),
    }
    propose(&mut queue, "b").unwrap();
    match propose(&mut queue, "c") {
        Err(Error::Component(m)) => assert_eq!(m, "审批队列已满（最多 2 条），请先处理现有请求"),
        other => panic!("unexpected {other:?}"),
    }
}

#[test]
fn deciding_on_an_empty_or_unknown_queue_fails() {
    let mut queue = ApprovalQueue::new("/tmp/ws".to_owned());
    match queue.approve(None) {
        Err(Error::Component(m)) => assert_eq!(m, "没有待审批的安装"),
        _ => panic!("expected an error"),
    }
    propose(&mut queue, "a").unwrap();
    match queue.reject(Some("zzz"), None) {
        Err(Error::Component(m)) => assert_eq!(m, "找不到待审批项 `zzz`"),
        _ => panic!("expected an error"),
    }
    assert_eq!(queue.pending_all().len(), 1);
}

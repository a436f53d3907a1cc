use kuma_client::client::Client;
use kuma_client::config::Config;
use kuma_client::connect::ConnectStep;
use kuma_client::error::Error;
use kuma_client::events::dispatch;
use kuma_client::events::Event;
use kuma_client::events::Incoming;
use kuma_client::events::Update;
use kuma_client::model::LoginResponse;
use kuma_client::model::Monitor;
use kuma_client::model::MonitorCommon;
use kuma_client::model::MonitorType;
use kuma_client::model::Notification;
use kuma_client::model::Tag;
use kuma_client::model::TagDefinition;
use kuma_client::monitors::MonitorList;
use kuma_client::ready::Ready;
use kuma_client::request::Argument;
use kuma_client::request::CallOutcome;
use kuma_client::request::Request;
use kuma_client::worker::Worker;
use serde_json::Value;

fn value(text: &str) -> Value {
    serde_json::from_str(text).unwrap()
}

fn config(username: Option<&str>, password: Option<&str>, token: Option<&str>) -> Config {
    Config {
        url: "http://localhost:3001".to_owned(),
        username: username.map(|s| s.to_owned()),
        password: password.map(|s| s.to_owned()),
        mfa_token: token.map(|s| s.to_owned()),
        headers: vec![],
    }
}

fn worker() -> Worker {
    Worker::new(config(None, None, None))
}

fn tag(id: i32, name: &str, text: &str) -> Tag {
    Tag {
        tag_id: Some(id),
        name: Some(name.to_owned()),
        value: Some(text.to_owned()),
        details: value("{}"),
    }
}

fn monitor(id: Option<i32>, group: bool, tags: Vec<Tag>) -> Monitor {
    Monitor {
        monitor_type: if group { MonitorType::Group } else { MonitorType::Other("http".to_owned()) },
        common: MonitorCommon {
            id,
            parent: None,
            parent_name: None,
            tags,
            notification_id_list: None,
        },
        details: value("{}"),
    }
}

fn json_args(request: Request) -> Vec<Value> {
    request
        .args
        .into_iter()
        .map(|argument| match argument {
            Argument::Json(value) => value,
            other => panic!("{:?}", other),
        })
        .collect()
}

#[test]
fn ready_needs_both_lists() {
    let mut ready = Ready::new();
    assert!(!ready.is_ready());
    ready.monitor_list = true;
    assert!(!ready.is_ready());
    ready.notification_list = true;
    assert!(ready.is_ready());
    ready.reset();
    assert_eq!(ready, Ready::new());
    assert!(!ready.is_ready());
}

#[test]
fn lists_make_the_client_ready_and_are_read_back() {
    let mut client = Client::connect(config(None, None, None));
    assert!(matches!(client.get_monitors(), Err(Error::NotReady)));
    let list = MonitorList::from_entries(vec![("7".to_owned(), monitor(Some(7), false, vec![]))]);
    assert!(client.worker.on_event(Update::MonitorList(list)).is_none());
    assert!(matches!(client.get_monitors(), Err(Error::NotReady)));
    assert!(matches!(client.get_notifications(), Err(Error::NotReady)));
    assert!(matches!(client.get_notification(3), Err(Error::NotReady)));
    let notification = Notification { id: Some(3), config: value(r#"{"a": 1}"#), details: value("{}") };
    assert!(client.worker.on_event(Update::NotificationList(vec![notification])).is_none());
    assert!(client.worker.is_ready());
    let monitors = client.get_monitors().unwrap();
    assert_eq!(monitors.len(), 1);
    assert_eq!(monitors.key(0), "7");
    assert_eq!(monitors.monitor(0).common.id, Some(7));
    assert!(monitors.get("8").is_none());
    assert_eq!(client.get_notifications().unwrap().len(), 1);
    assert_eq!(client.get_notification(3).unwrap().config, value(r#"{"a": 1}"#));
    assert!(matches!(
        client.get_notification(4),
        Err(Error::IdNotFound(kind, 4)) if kind == "Notification"
    ));
}

#[test]
fn a_greeting_calls_for_a_login_once() {
    let mut worker = Worker::new(config(Some("me"), Some("secret"), Some("123")));
    let request = worker.on_event(Update::Info).unwrap();
    assert!(worker.is_connected);
    assert_eq!(request.method, "login");
    assert_eq!(request.result_ptr, "");
    assert!(!request.verify);
    assert_eq!(
        json_args(request),
        vec![value(r#"{"username": "me", "password": "secret", "token": "123"}"#)]
    );
    assert!(worker.login_answered(Ok(LoginResponse { ok: true, msg: None })).is_ok());
    assert!(worker.is_logged_in);
    assert!(worker.on_info().is_none());
}

#[test]
fn a_login_without_token_sends_null() {
    let request = worker().login("me", "", &None);
    assert_eq!(json_args(request), vec![value(r#"{"username": "me", "password": "", "token": null}"#)]);
}

#[test]
fn no_login_without_credentials_or_after_auto_login() {
    let mut anonymous = Worker::new(config(Some("me"), None, None));
    assert!(anonymous.on_info().is_none());
    assert!(anonymous.is_connected);
    let mut known = Worker::new(config(Some("me"), Some("secret"), None));
    assert!(known.on_event(Update::AutoLogin).is_none());
    assert!(known.is_logged_in);
    assert!(known.on_info().is_none());
}

#[test]
fn a_refused_login_leaves_the_state_and_other_failures_log_out() {
    let mut worker = worker();
    worker.is_logged_in = true;
    let refused = worker.login_answered(Ok(LoginResponse { ok: false, msg: Some("wrong".to_owned()) }));
    assert!(matches!(refused, Err(Error::LoginError(message)) if message == "wrong"));
    assert!(worker.is_logged_in);
    let odd = worker.login_answered(Ok(LoginResponse { ok: false, msg: None }));
    assert!(matches!(odd, Err(Error::LoginError(message)) if message == "Unexpect login response"));
    assert!(!worker.is_logged_in);
    worker.is_logged_in = true;
    let failed = worker.login_answered(Err(Error::Disconnected));
    assert!(matches!(failed, Err(Error::Disconnected)));
    assert!(!worker.is_logged_in);
}

#[test]
fn connecting_forgets_readiness_and_login_only() {
    let mut worker = worker();
    worker.on_monitor_list(MonitorList::from_entries(vec![("1".to_owned(), monitor(Some(1), false, vec![]))]));
    worker.on_notification_list(vec![]);
    worker.on_auto_login();
    assert!(worker.on_info().is_none());
    worker.connect();
    assert!(!worker.is_ready());
    assert!(!worker.is_logged_in);
    assert!(worker.is_connected);
    assert_eq!(worker.monitors.len(), 1);
}

#[test]
fn waiting_grows_and_ends_after_ten_looks() {
    let mut worker = worker();
    let mut total = 0;
    for attempt in 0..10 {
        match worker.connect_step(attempt) {
            ConnectStep::Wait(millis) => {
                assert_eq!(millis, 200 * attempt);
                total += millis;
            }
            other => panic!("{:?}", other),
        }
    }
    assert_eq!(total, 9000);
    assert!(matches!(worker.connect_step(10), ConnectStep::Failed(Error::ConnectionTimeout)));
    assert!(worker.on_info().is_none());
    assert!(matches!(worker.connect_step(10), ConnectStep::Failed(Error::NotAuthenticated)));
    worker.on_monitor_list(MonitorList::new());
    worker.on_notification_list(vec![]);
    assert!(matches!(worker.connect_step(9), ConnectStep::Connected));
    assert!(matches!(worker.connect_step(10), ConnectStep::Failed(Error::NotAuthenticated)));
}

#[test]
fn headers_split_at_the_first_equals_sign() {
    let mut settings = config(None, None, None);
    settings.headers = vec!["A=b=c".to_owned(), "none".to_owned(), "=x".to_owned(), "é=".to_owned()];
    assert_eq!(
        settings.opening_headers(),
        vec![
            ("A".to_owned(), "b=c".to_owned()),
            ("".to_owned(), "x".to_owned()),
            ("é".to_owned(), "".to_owned()),
        ]
    );
}

#[test]
fn events_by_name() {
    assert_eq!(Event::from_name("monitorList"), Some(Event::MonitorList));
    assert_eq!(Event::from_name("notificationList"), Some(Event::NotificationList));
    assert_eq!(Event::from_name("info"), Some(Event::Info));
    assert_eq!(Event::from_name("autoLogin"), Some(Event::AutoLogin));
    assert_eq!(Event::from_name("heartbeat"), None);
}

#[test]
fn a_plain_message_names_its_event() {
    let (event, payload) = dispatch(Incoming::Message(vec![value(r#""info""#), value("1")])).unwrap();
    assert_eq!(event, Event::Info);
    assert_eq!(payload, Value::Null);
    assert!(dispatch(Incoming::Message(vec![value("1")])).is_none());
}

#[test]
fn a_named_event_carries_its_first_parameter() {
    let incoming = Incoming::Named("monitorList".to_owned(), vec![value(r#"{"1": 2}"#), value("3")]);
    let (event, payload) = dispatch(incoming).unwrap();
    assert_eq!(event, Event::MonitorList);
    assert_eq!(payload, value(r#"{"1": 2}"#));
    assert!(dispatch(Incoming::Named("other".to_owned(), vec![])).is_none());
    assert!(dispatch(Incoming::Binary).is_none());
}

fn check_call(request: Request, method: &str, args: Vec<Value>, result_ptr: &str) {
    assert_eq!(request.method, method);
    assert_eq!(request.result_ptr, result_ptr);
    assert!(request.verify);
    assert_eq!(json_args(request), args);
}

#[test]
fn calls_on_ids() {
    let client = Client::connect(config(None, None, None));
    check_call(client.delete_tag(4), "deleteTag", vec![value("4")], "/ok");
    check_call(client.delete_monitor(-4), "deleteMonitor", vec![value("-4")], "/ok");
    check_call(client.delete_notification(9), "deleteNotification", vec![value("9")], "/ok");
    check_call(client.get_monitor(2), "getMonitor", vec![value("2")], "/monitor");
    check_call(client.get_tags(), "getTags", vec![], "/tags");
}

#[test]
fn calls_on_monitor_tags() {
    let worker = worker();
    let args = vec![value("2"), value("1"), value(r#""x""#)];
    check_call(worker.add_monitor_tag(1, 2, &Some("x".to_owned())), "addMonitorTag", args.clone(), "/ok");
    check_call(worker.edit_monitor_tag(1, 2, &Some("x".to_owned())), "editMonitorTag", args, "/ok");
    let args = vec![value("2"), value("1"), value(r#""""#)];
    check_call(worker.delete_monitor_tag(1, 2, &None), "deleteMonitorTag", args, "/ok");
}

#[test]
fn calls_on_tag_definitions() {
    let client = Client::connect(config(None, None, None));
    let tag = TagDefinition { tag_id: Some(8), details: value(r#"{"name": "n"}"#) };
    for (request, method) in [(client.add_tag(&tag), "addTag"), (client.edit_tag(&tag), "editTag")] {
        assert_eq!(request.method, method);
        assert_eq!(request.result_ptr, "/tag");
        assert!(request.verify);
        assert_eq!(request.args.len(), 1);
        match &request.args[0] {
            Argument::Tag(sent) => {
                assert_eq!(sent.tag_id, Some(8));
                assert_eq!(sent.details, value(r#"{"name": "n"}"#));
            }
            other => panic!("{:?}", other),
        }
    }
}

#[test]
fn tags_are_found_by_id() {
    let client = Client::connect(config(None, None, None));
    let tags = vec![
        TagDefinition { tag_id: None, details: value("0") },
        TagDefinition { tag_id: Some(1), details: value("1") },
        TagDefinition { tag_id: Some(1), details: value("2") },
    ];
    assert_eq!(client.get_tag(1, Ok(tags.clone())).unwrap().details, value("1"));
    assert!(matches!(client.get_tag(2, Ok(tags)), Err(Error::IdNotFound(kind, 2)) if kind == "Tag"));
    assert!(matches!(client.get_tag(1, Err(Error::Disconnected)), Err(Error::Disconnected)));
}

#[test]
fn a_notification_is_merged_over_its_configuration() {
    let client = Client::connect(config(None, None, None));
    let notification = Notification {
        id: Some(6),
        config: value(r#"{"a": 1, "b": 2, "c": null}"#),
        details: value("{}"),
    };
    let encoded = value(r#"{"b": 3, "a": null, "d": 4}"#);
    let merged = value(r#"{"a": 1, "b": 3, "c": null, "d": 4}"#);
    let request = client.edit_notification(&notification, &encoded);
    check_call(request, "addNotification", vec![merged.clone(), value("6")], "/id");
    let request = client.store_notification(&notification, &encoded).unwrap();
    check_call(request, "addNotification", vec![merged.clone(), value("6")], "/id");
    let unnamed = Notification { id: None, ..notification };
    let request = client.add_notification(&unnamed, &encoded);
    check_call(request, "addNotification", vec![merged, value("null")], "/id");
    assert!(client.store_notification(&unnamed, &value("[]")).is_none());
    let odd = Notification { id: None, config: value("null"), details: value("{}") };
    assert!(client.store_notification(&odd, &encoded).is_none());
}

#[test]
fn a_stored_notification_gets_its_id() {
    let client = Client::connect(config(None, None, None));
    let mut notification = Notification { id: None, config: value("{}"), details: value("{}") };
    let request = client.add_notification(&notification, &value("{}"));
    let refused = CallOutcome::Answered(vec![value(r#"[{"ok": false, "msg": "no"}]"#)]);
    assert!(Worker::notification_answered(&mut notification, &request, refused).is_err());
    assert_eq!(notification.id, None);
    let stored = CallOutcome::Answered(vec![value(r#"[{"ok": true, "id": 11}]"#)]);
    assert!(Worker::notification_answered(&mut notification, &request, stored).is_ok());
    assert_eq!(notification.id, Some(11));
}

#[test]
fn a_missing_monitor_is_told_by_the_message() {
    let message = "TypeError: Cannot read properties of null (reading 'x')".to_owned();
    assert!(matches!(
        Worker::monitor_answered(5, Err(Error::ServerError(message))),
        Err(Error::IdNotFound(kind, 5)) if kind == "Monitor"
    ));
    assert!(matches!(
        Worker::monitor_answered(5, Err(Error::ServerError("Cannot read".to_owned()))),
        Err(Error::ServerError(message)) if message == "Cannot read"
    ));
    assert!(matches!(Worker::monitor_answered(5, Err(Error::NotReady)), Err(Error::NotReady)));
    assert_eq!(Worker::monitor_answered(5, Ok(monitor(Some(5), false, vec![]))).unwrap().common.id, Some(5));
}

fn worker_with_groups() -> Worker {
    let mut worker = worker();
    worker.on_monitor_list(MonitorList::from_entries(vec![
        ("1".to_owned(), monitor(Some(1), false, vec![tag(1, "AutoKuma", "servers")])),
        ("2".to_owned(), monitor(Some(2), true, vec![tag(2, "Other", "servers")])),
        ("3".to_owned(), monitor(Some(3), true, vec![tag(9, "x", "y"), tag(1, "AutoKuma", "servers")])),
        ("4".to_owned(), monitor(None, true, vec![tag(1, "AutoKuma", "nameless")])),
    ]));
    worker
}

#[test]
fn a_group_is_found_by_its_tag() {
    let worker = worker_with_groups();
    let mut child = monitor(None, false, vec![]);
    child.common.parent_name = Some("servers".to_owned());
    assert!(worker.resolve_group(&mut child).is_ok());
    assert_eq!(child.common.parent, Some(3));
    assert_eq!(child.common.parent_name, None);
    assert!(worker.resolve_group(&mut child).is_ok());
    assert_eq!(child.common.parent, None);
}

#[test]
fn an_unknown_group_is_an_error() {
    let worker = worker_with_groups();
    for name in ["nobody", "nameless"] {
        let mut child = monitor(None, false, vec![]);
        child.common.parent = Some(77);
        child.common.parent_name = Some(name.to_owned());
        assert!(matches!(
            worker.resolve_group(&mut child),
            Err(Error::GroupNotFound(wanted)) if wanted == name
        ));
        assert_eq!(child.common.parent, Some(77));
        assert_eq!(child.common.parent_name, None);
    }
}

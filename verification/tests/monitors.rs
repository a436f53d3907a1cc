use kuma_client::client::Client;
use kuma_client::config::Config;
use kuma_client::error::Error;
use kuma_client::job::MonitorJob;
use kuma_client::model::Monitor;
use kuma_client::model::MonitorCommon;
use kuma_client::model::MonitorType;
use kuma_client::model::Tag;
use kuma_client::monitors::MonitorList;
use kuma_client::request::Argument;
use kuma_client::request::CallOutcome;
use kuma_client::request::Request;
use kuma_client::tags::tag_changes;
use kuma_client::tags::TagChange;
use kuma_client::text::contains;
use kuma_client::text::decimal_of;
use kuma_client::text::split_once;
use serde_json::Value;

fn value(text: &str) -> Value {
    serde_json::from_str(text).unwrap()
}

fn tag(id: Option<i32>, text: Option<&str>) -> Tag {
    Tag { tag_id: id, name: None, value: text.map(|s| s.to_owned()), details: value("{}") }
}

fn monitor(id: Option<i32>, tags: Vec<Tag>) -> Monitor {
    Monitor {
        monitor_type: MonitorType::Other("http".to_owned()),
        common: MonitorCommon {
            id,
            parent: Some(5),
            parent_name: None,
            tags,
            notification_id_list: Some(value(r#"{"1": true}"#)),
        },
        details: value(r#"{"name": "web"}"#),
    }
}

fn client(entries: Vec<(String, Monitor)>) -> Client {
    let mut client = Client::connect(Config {
        url: "http://localhost".to_owned(),
        username: None,
        password: None,
        mfa_token: None,
        headers: vec![],
    });
    client.worker.on_monitor_list(MonitorList::from_entries(entries));
    client.worker.on_notification_list(vec![]);
    client
}

fn stored(id: i32) -> CallOutcome {
    CallOutcome::Answered(vec![value(&format!(r#"[{{"ok": true, "monitorID": {}}}]"#, id))])
}

fn acknowledged() -> CallOutcome {
    CallOutcome::Answered(vec![value(r#"[{"ok": true}]"#)])
}

fn shown(changes: &[TagChange]) -> Vec<String> {
    changes
        .iter()
        .map(|change| match change {
            TagChange::Add { tag_id, value } => format!("add {} {:?}", tag_id, value),
            TagChange::Edit { tag_id, value } => format!("edit {} {:?}", tag_id, value),
            TagChange::Delete { tag_id, value } => format!("delete {} {:?}", tag_id, value),
        })
        .collect()
}

#[test]
fn an_unknown_monitor_gets_every_tag_with_an_id() {
    let wanted = vec![tag(Some(1), Some("a")), tag(None, Some("b")), tag(Some(1), None)];
    assert_eq!(shown(&tag_changes(None, &wanted)), vec![r#"add 1 Some("a")"#, "add 1 None"]);
}

#[test]
fn tags_are_brought_to_what_is_wanted() {
    let current = vec![
        tag(Some(1), Some("keep")),
        tag(Some(2), Some("old")),
        tag(Some(3), Some("gone")),
        tag(None, Some("odd")),
    ];
    let wanted = vec![
        tag(Some(4), Some("new")),
        tag(Some(2), Some("new")),
        tag(Some(1), Some("keep")),
    ];
    assert_eq!(
        shown(&tag_changes(Some(&current), &wanted)),
        vec![r#"delete 3 Some("gone")"#, r#"add 4 Some("new")"#, r#"edit 2 Some("new")"#]
    );
}

#[test]
fn settled_tags_need_no_change() {
    let tags = vec![tag(Some(1), Some("a")), tag(Some(2), None), tag(None, None), tag(None, None)];
    assert!(tag_changes(Some(&tags), &tags).is_empty());
}

#[test]
fn a_missing_value_is_not_an_empty_one() {
    let current = vec![tag(Some(1), None)];
    let wanted = vec![tag(Some(1), Some(""))];
    assert_eq!(shown(&tag_changes(Some(&current), &wanted)), vec![r#"edit 1 Some("")"#]);
}

#[test]
fn the_second_copy_of_a_tag_goes() {
    let current = vec![
        tag(Some(1), Some("a")),
        tag(Some(1), Some("b")),
        tag(Some(1), Some("c")),
        tag(Some(2), Some("x")),
    ];
    assert_eq!(
        shown(&tag_changes(Some(&current), &vec![])),
        vec![r#"delete 1 Some("b")"#, r#"delete 2 Some("x")"#]
    );
    assert_eq!(
        shown(&tag_changes(Some(&current), &vec![tag(Some(1), Some("c")), tag(Some(2), Some("x"))])),
        vec![r#"delete 1 Some("b")"#]
    );
    assert_eq!(
        shown(&tag_changes(Some(&current), &vec![tag(Some(1), Some("d")), tag(Some(2), Some("x"))])),
        vec![r#"delete 1 Some("b")"#, r#"edit 1 Some("d")"#]
    );
}

#[test]
fn the_last_copy_of_a_wanted_tag_counts() {
    let wanted = vec![tag(Some(1), Some("a")), tag(Some(1), Some("b"))];
    assert_eq!(shown(&tag_changes(Some(&vec![]), &wanted)), vec![r#"add 1 Some("b")"#]);
}

fn sent_monitor(request: &Request) -> &Monitor {
    assert_eq!(request.args.len(), 1);
    assert_eq!(request.result_ptr, "/monitorID");
    assert!(request.verify);
    match &request.args[0] {
        Argument::Monitor(monitor) => monitor,
        other => panic!("{:?}", other),
    }
}

fn finished(job: MonitorJob, client: &Client) -> (Monitor, Result<(), Error>) {
    assert!(job.pending(&client.worker).is_none());
    job.finish()
}

#[test]
fn an_edit_sends_the_monitor_and_then_its_tags() {
    let known = monitor(Some(7), vec![tag(Some(1), Some("a"))]);
    let mut client = client(vec![("7".to_owned(), known)]);
    let job = client.edit_monitor(monitor(Some(7), vec![tag(Some(2), Some("b"))]));
    let request = job.pending(&client.worker).unwrap();
    assert_eq!(request.method, "editMonitor");
    let sent = sent_monitor(&request);
    assert!(sent.common.tags.is_empty());
    assert_eq!(sent.common.notification_id_list, Some(value(r#"{"1": true}"#)));
    assert_eq!(sent.common.parent, None);
    assert_eq!(sent.details, value(r#"{"name": "web"}"#));
    let job = job.step(&mut client.worker, stored(7));
    assert_eq!(job.pending(&client.worker).unwrap().method, "deleteMonitorTag");
    let job = job.step(&mut client.worker, acknowledged());
    assert_eq!(job.pending(&client.worker).unwrap().method, "addMonitorTag");
    let job = job.step(&mut client.worker, acknowledged());
    let (result, verdict) = finished(job, &client);
    assert!(verdict.is_ok());
    assert_eq!(result.common.tags.len(), 1);
    assert_eq!(result.common.tags[0].tag_id, Some(2));
    assert_eq!(client.worker.monitors.get("7").unwrap().common.tags[0].tag_id, Some(1));
}

#[test]
fn an_edit_that_fails_leaves_the_monitor_without_tags() {
    let mut client = client(vec![]);
    let job = client.edit_monitor(monitor(Some(7), vec![tag(Some(2), Some("b"))]));
    let job = job.step(&mut client.worker, CallOutcome::TimedOut);
    let job = job.step(&mut client.worker, stored(7));
    let (result, verdict) = finished(job, &client);
    assert!(matches!(verdict, Err(Error::CallTimeout(method)) if method == "editMonitor"));
    assert!(result.common.tags.is_empty());

    let job = client.edit_monitor(monitor(Some(7), vec![tag(Some(2), Some("b"))]));
    let job = job.step(&mut client.worker, stored(7));
    let job = job.step(&mut client.worker, CallOutcome::Disconnected);
    let (result, verdict) = finished(job, &client);
    assert!(matches!(verdict, Err(Error::Disconnected)));
    assert!(result.common.tags.is_empty());
}

#[test]
fn an_edit_with_an_unknown_group_sends_nothing() {
    let client = client(vec![]);
    let mut given = monitor(Some(7), vec![tag(Some(2), Some("b"))]);
    given.common.parent_name = Some("nobody".to_owned());
    let job = client.edit_monitor(given);
    assert_eq!(job.monitor().common.tags.len(), 1);
    let (result, verdict) = finished(job, &client);
    assert!(matches!(verdict, Err(Error::GroupNotFound(name)) if name == "nobody"));
    assert_eq!(result.common.tags.len(), 1);
}

#[test]
fn an_addition_adds_edits_and_tags() {
    let group = Monitor {
        monitor_type: MonitorType::Group,
        common: MonitorCommon {
            id: Some(3),
            parent: None,
            parent_name: None,
            tags: vec![Tag {
                tag_id: Some(1),
                name: Some("AutoKuma".to_owned()),
                value: Some("servers".to_owned()),
                details: value("{}"),
            }],
            notification_id_list: None,
        },
        details: value("{}"),
    };
    let mut client = client(vec![("3".to_owned(), group)]);
    let mut given = monitor(None, vec![tag(Some(2), Some("b"))]);
    given.common.parent_name = Some("servers".to_owned());
    let job = client.add_monitor(given);
    let request = job.pending(&client.worker).unwrap();
    assert_eq!(request.method, "add");
    let sent = sent_monitor(&request);
    assert!(sent.common.tags.is_empty());
    assert_eq!(sent.common.notification_id_list, None);
    assert_eq!(sent.common.parent, Some(3));
    assert_eq!(sent.common.parent_name, None);
    let job = job.step(&mut client.worker, stored(12));
    let request = job.pending(&client.worker).unwrap();
    assert_eq!(request.method, "editMonitor");
    let sent = sent_monitor(&request);
    assert_eq!(sent.common.id, Some(12));
    assert!(sent.common.tags.is_empty());
    assert_eq!(sent.common.notification_id_list, Some(value(r#"{"1": true}"#)));
    assert_eq!(sent.common.parent, None);
    let job = job.step(&mut client.worker, stored(12));
    assert!(client.worker.monitors.get("12").is_none());
    assert_eq!(job.pending(&client.worker).unwrap().method, "addMonitorTag");
    let job = job.step(&mut client.worker, acknowledged());
    let (result, verdict) = finished(job, &client);
    assert!(verdict.is_ok());
    assert_eq!(result.common.id, Some(12));
    assert_eq!(result.common.parent, None);
    assert_eq!(result.common.tags.len(), 1);
    let known = client.get_monitors().unwrap();
    assert_eq!(known.len(), 2);
    assert_eq!(known.get("12").unwrap().common.tags[0].tag_id, Some(2));
}

#[test]
fn an_addition_that_fails_leaves_the_monitor_bare_and_unknown() {
    let mut client = client(vec![]);
    let job = client.add_monitor(monitor(None, vec![tag(Some(2), Some("b"))]));
    let refused = CallOutcome::Answered(vec![value(r#"[{"ok": false, "msg": "full"}]"#)]);
    let job = job.step(&mut client.worker, refused);
    let (result, verdict) = finished(job, &client);
    assert!(matches!(verdict, Err(Error::ServerError(message)) if message == "full"));
    assert!(result.common.tags.is_empty());
    assert_eq!(result.common.notification_id_list, None);
    assert_eq!(client.worker.monitors.len(), 0);
}

#[test]
fn a_list_keeps_one_monitor_for_each_key() {
    let mut list = MonitorList::from_entries(vec![
        ("a".to_owned(), monitor(Some(1), vec![])),
        ("b".to_owned(), monitor(Some(2), vec![])),
        ("a".to_owned(), monitor(Some(3), vec![])),
    ]);
    assert_eq!(list.len(), 2);
    assert_eq!(list.get("a").unwrap().common.id, Some(3));
    list.insert("b".to_owned(), monitor(Some(4), vec![]));
    assert_eq!(list.len(), 2);
    assert_eq!(list.get("b").unwrap().common.id, Some(4));
    assert_eq!(list.get("a").unwrap().common.id, Some(3));
    let copy = list.clone();
    list.insert("c".to_owned(), monitor(Some(5), vec![]));
    assert_eq!(list.key(2), "c");
    assert_eq!(copy.len(), 2);
}

#[test]
fn every_entry_is_found_under_its_key() {
    let mut list = MonitorList::new();
    for (key, id) in [("a", 1), ("b", 2), ("a", 3), ("c", 4), ("b", 5)] {
        list.insert(key.to_owned(), monitor(Some(id), vec![]));
    }
    let keys: Vec<&str> = (0..list.len()).map(|i| list.key(i)).collect();
    assert_eq!(keys, vec!["a", "b", "c"]);
    for i in 0..list.len() {
        assert_eq!(list.get(list.key(i)).unwrap().common.id, list.monitor(i).common.id);
    }
}

#[test]
fn a_monitor_that_is_added_again_has_one_entry() {
    let mut client = client(vec![("12".to_owned(), monitor(Some(12), vec![]))]);
    let job = client.add_monitor(monitor(None, vec![]));
    let job = job.step(&mut client.worker, stored(12));
    let job = job.step(&mut client.worker, stored(12));
    assert!(finished(job, &client).1.is_ok());
    assert_eq!(client.worker.monitors.len(), 1);
    assert_eq!(client.worker.monitors.key(0), "12");
    assert_eq!(client.worker.monitors.monitor(0).common.parent, None);
}

#[test]
fn decimal_numerals() {
    for n in [0, 7, 10, 99, 100, 12345, -1, -10, i32::MAX, i32::MIN] {
        assert_eq!(decimal_of(n), n.to_string());
    }
}

#[test]
fn text_in_text() {
    for (whole, part) in [("", ""), ("abc", ""), ("abc", "c"), ("aab", "ab"), ("abc", "abcd"), ("häß", "äß"), ("ab", "ba")] {
        assert_eq!(contains(whole, part), whole.contains(part));
    }
}

#[test]
fn splitting_once() {
    assert_eq!(split_once("a=b=c", '='), Some(("a".to_owned(), "b=c".to_owned())));
    assert_eq!(split_once("abc", '='), None);
    assert_eq!(split_once("=", '='), Some(("".to_owned(), "".to_owned())));
}

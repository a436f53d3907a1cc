use kuma_client::error::Error;
use kuma_client::model::TagDefinition;
use kuma_client::request::call_for_id;
use kuma_client::request::call_for_ok;
use kuma_client::request::Argument;
use kuma_client::request::CallOutcome;
use kuma_client::request::Request;
use kuma_client::worker::Worker;
use serde_json::Value;

fn value(text: &str) -> Value {
    serde_json::from_str(text).unwrap()
}

fn response(text: &str) -> Vec<Value> {
    vec![value(text)]
}

fn request(result_ptr: &str, verify: bool) -> Request {
    Request {
        method: "someMethod".to_owned(),
        args: vec![],
        result_ptr: result_ptr.to_owned(),
        verify,
    }
}

fn answered(text: &str) -> CallOutcome {
    CallOutcome::Answered(response(text))
}

#[test]
fn finds_the_result_of_a_verified_answer() {
    let answer = response(r#"[{"ok": true, "tag": {"id": 3}}]"#);
    let found = Worker::extract_response(answer.clone(), "/tag", true).unwrap();
    assert_eq!(found.value, value(r#"{"id": 3}"#));
    assert_eq!(found.response, answer);
    assert_eq!(found.result_ptr, "/tag");
}

#[test]
fn the_empty_pointer_gives_the_whole_first_item() {
    let found = Worker::extract_response(response(r#"[{"a": 1}, 2]"#), "", false).unwrap();
    assert_eq!(found.value, value(r#"{"a": 1}"#));
}

#[test]
fn pointers_follow_positions_and_escapes() {
    let answer = response(r#"[{"list": ["a", {"x/y": {"~": 7}}]}]"#);
    let found = Worker::extract_response(answer.clone(), "/list/1/x~1y/~0", false).unwrap();
    assert_eq!(found.value, value("7"));
    assert!(Worker::extract_response(answer.clone(), "/list/01", false).is_err());
    assert!(Worker::extract_response(answer.clone(), "/list/2", false).is_err());
    assert!(Worker::extract_response(answer, "list", false).is_err());
}

#[test]
fn an_answer_without_ok_is_invalid_when_verified() {
    let answer = response(r#"[{"tag": 1}]"#);
    match Worker::extract_response(answer.clone(), "/tag", true) {
        Err(Error::InvalidResponse(given, pointer)) => {
            assert_eq!(given, answer);
            assert_eq!(pointer, "/tag");
        }
        other => panic!("{:?}", other),
    }
    assert!(Worker::extract_response(answer, "/tag", false).is_ok());
}

#[test]
fn a_refusal_carries_the_message_of_the_server() {
    match Worker::extract_response(response(r#"[{"ok": false, "msg": "no way"}]"#), "/tag", true) {
        Err(Error::ServerError(message)) => assert_eq!(message, "no way"),
        other => panic!("{:?}", other),
    }
}

#[test]
fn a_refusal_without_message_is_an_unknown_error() {
    for text in [r#"[{"ok": false}]"#, r#"[{"ok": "yes", "msg": 4}]"#] {
        match Worker::extract_response(response(text), "/tag", true) {
            Err(Error::ServerError(message)) => assert_eq!(message, "Unknown error"),
            other => panic!("{:?}", other),
        }
    }
}

#[test]
fn a_missing_result_is_invalid() {
    match Worker::extract_response(response(r#"[{"ok": true}]"#), "/tag", true) {
        Err(Error::InvalidResponse(_, pointer)) => assert_eq!(pointer, "/tag"),
        other => panic!("{:?}", other),
    }
}

#[test]
fn a_result_that_cannot_be_read_is_invalid() {
    let found = Worker::extract_response(response(r#"[{"ok": true, "tag": 1}]"#), "/tag", true).unwrap();
    match found.decoded::<i32>(None) {
        Err(Error::InvalidResponse(given, pointer)) => {
            assert_eq!(given, response(r#"[{"ok": true, "tag": 1}]"#));
            assert_eq!(pointer, "/tag");
        }
        other => panic!("{:?}", other),
    }
    let found = Worker::extract_response(response(r#"[{"ok": true, "tag": 1}]"#), "/tag", true).unwrap();
    assert_eq!(found.decoded(Some(1)).unwrap(), 1);
}

#[test]
fn ids_are_integers_of_their_range() {
    let ask = request("/monitorID", true);
    assert_eq!(call_for_id(&ask, answered(r#"[{"ok": true, "monitorID": 42}]"#)).unwrap(), 42);
    assert_eq!(call_for_id(&ask, answered(r#"[{"ok": true, "monitorID": -7}]"#)).unwrap(), -7);
    for text in [
        r#"[{"ok": true, "monitorID": 2147483648}]"#,
        r#"[{"ok": true, "monitorID": 4.0}]"#,
        r#"[{"ok": true, "monitorID": "4"}]"#,
        r#"[{"ok": true, "monitorID": null}]"#,
    ] {
        assert!(matches!(call_for_id(&ask, answered(text)), Err(Error::InvalidResponse(_, _))));
    }
}

#[test]
fn an_acknowledgement_needs_ok_to_be_true() {
    let ask = request("/ok", true);
    assert!(call_for_ok(&ask, answered(r#"[{"ok": true}]"#)).is_ok());
    assert!(matches!(
        call_for_ok(&ask, answered(r#"[{"ok": false, "msg": "gone"}]"#)),
        Err(Error::ServerError(message)) if message == "gone"
    ));
    assert!(matches!(call_for_ok(&ask, answered(r#"[{}]"#)), Err(Error::InvalidResponse(_, _))));
    assert!(matches!(call_for_ok(&ask, answered("[]")), Err(Error::InvalidResponse(_, _))));
}

#[test]
fn an_acknowledgement_is_one_whichever_boolean_is_read() {
    let ask = request("/ok", false);
    assert!(call_for_ok(&ask, answered(r#"[{"ok": false}]"#)).is_ok());
    assert!(call_for_ok(&ask, answered(r#"[{"ok": 1}]"#)).is_err());
}

#[test]
fn calls_that_are_not_answered_fail() {
    let ask = request("/ok", true);
    assert!(matches!(call_for_ok(&ask, CallOutcome::Disconnected), Err(Error::Disconnected)));
    assert!(matches!(
        call_for_ok(&ask, CallOutcome::EmitFailed("broken".to_owned())),
        Err(Error::CommunicationError(message)) if message == "broken"
    ));
    assert!(matches!(
        call_for_id(&ask, CallOutcome::TimedOut),
        Err(Error::CallTimeout(method)) if method == "someMethod"
    ));
    assert!(matches!(Worker::call(&ask, CallOutcome::Unsupported), Err(Error::UnsupportedResponse)));
}

#[test]
fn a_call_that_is_not_answered_fails_alike_whatever_it_asks_for() {
    fn outcomes() -> Vec<(CallOutcome, &'static str)> {
        vec![
            (CallOutcome::Disconnected, "Disconnected"),
            (CallOutcome::EmitFailed("broken".to_owned()), "CommunicationError(\"broken\")"),
            (CallOutcome::TimedOut, "CallTimeout(\"someMethod\")"),
            (CallOutcome::Unsupported, "UnsupportedResponse"),
        ]
    }
    let ask = request("/ok", true);
    for (outcome, error) in outcomes() {
        assert_eq!(format!("{:?}", Worker::call(&ask, outcome).unwrap_err()), error);
    }
    for (outcome, error) in outcomes() {
        assert_eq!(format!("{:?}", call_for_id(&ask, outcome).unwrap_err()), error);
    }
    for (outcome, error) in outcomes() {
        assert_eq!(format!("{:?}", call_for_ok(&ask, outcome).unwrap_err()), error);
    }
}

#[test]
fn a_tag_answer_replaces_the_tag_only_on_success() {
    let mut tag = TagDefinition { tag_id: None, details: value(r#"{"name": "a"}"#) };
    assert!(Worker::tag_answered(&mut tag, Err(Error::Disconnected)).is_err());
    assert_eq!(tag.tag_id, None);
    let stored = TagDefinition { tag_id: Some(5), details: value(r#"{"name": "b"}"#) };
    assert!(Worker::tag_answered(&mut tag, Ok(stored)).is_ok());
    assert_eq!(tag.tag_id, Some(5));
    assert_eq!(tag.details, value(r#"{"name": "b"}"#));
}

#[test]
fn arguments_show_what_they_hold() {
    let argument = Argument::Json(value("[1]"));
    assert!(matches!(argument, Argument::Json(given) if given == value("[1]")));
}

use projects_client::dispatch::{check_reply, settle, settle_ack, ApiError, Hook, HttpReply, Loading};

fn decode_id(text: &String) -> Result<i64, String> {
    let v: serde_json::Value = serde_json::from_str(text).map_err(|e| e.to_string())?;
    v.get("id").and_then(|x| x.as_i64()).ok_or_else(|| "missing field `id`".to_string())
}

fn decode_project(text: &String) -> Result<(i64, String), String> {
    let v: serde_json::Value = serde_json::from_str(text).map_err(|e| e.to_string())?;
    let id = v.get("id").and_then(|x| x.as_i64()).ok_or_else(|| "missing field `id`".to_string())?;
    let name = v
        .get("name")
        .and_then(|x| x.as_str())
        .ok_or_else(|| "missing field `name`".to_string())?;
    Ok((id, name.to_string()))
}

fn busy(n: usize) -> Loading {
    let mut l = Loading::new();
    for _ in 0..n {
        l.start_loading();
    }
    l
}

fn count_done<T>(hooks: &[Hook<T>]) -> usize {
    hooks.iter().filter(|h| matches!(h, Hook::Done)).count()
}

fn count_outcomes<T>(hooks: &[Hook<T>]) -> usize {
    hooks.iter().filter(|h| !matches!(h, Hook::Done)).count()
}

#[test]
fn transport_failure_fires_done_and_error() {
    let mut l = busy(1);
    let hooks = settle(&mut l, Err("connection refused".to_string()), decode_id);
    assert_eq!(l.count(), 0);
    assert_eq!(count_done(&hooks), 1);
    assert_eq!(count_outcomes(&hooks), 1);
    assert!(matches!(hooks[0], Hook::Done));
    match &hooks[1] {
        Hook::Error(ApiError::Transport(m)) => assert_eq!(m, "connection refused"),
        _ => panic!("expected a transport error"),
    }
}

#[test]
fn http_error_uses_body_as_message() {
    let mut l = busy(2);
    let reply = HttpReply { status: 404, text: Some("not found".to_string()) };
    let hooks = settle(&mut l, Ok(reply), decode_id);
    assert_eq!(l.count(), 1);
    assert_eq!(count_done(&hooks), 1);
    match &hooks[1] {
        Hook::Error(ApiError::Http { status, message }) => {
            assert_eq!(*status, 404);
            assert_eq!(message, "not found");
        }
        _ => panic!("expected an http error"),
    }
    let hooks = settle(&mut l, Ok(HttpReply { status: 500, text: None }), decode_id);
    match &hooks[1] {
        Hook::Error(e) => assert_eq!(e.message(), ""),
        _ => panic!("expected an http error"),
    }
}

#[test]
fn empty_body_is_a_decode_error() {
    let mut l = busy(1);
    let hooks = settle(&mut l, Ok(HttpReply { status: 200, text: None }), decode_id);
    assert_eq!(count_done(&hooks), 1);
    match &hooks[1] {
        Hook::Error(ApiError::Decode(m)) => assert_eq!(m, "Response was empty."),
        _ => panic!("expected a decode error"),
    }
}

#[test]
fn malformed_body_is_a_decode_error() {
    let mut l = busy(1);
    let reply = HttpReply { status: 200, text: Some("{not json".to_string()) };
    let hooks = settle(&mut l, Ok(reply), decode_id);
    assert_eq!(count_done(&hooks), 1);
    assert_eq!(count_outcomes(&hooks), 1);
    match &hooks[1] {
        Hook::Error(ApiError::Decode(m)) => assert!(m.starts_with("Could not decode Api response: ")),
        _ => panic!("expected a decode error"),
    }
}

#[test]
fn valid_body_fires_done_and_success() {
    let mut l = busy(1);
    let reply = HttpReply { status: 200, text: Some("{\"id\":42,\"name\":\"P\"}".to_string()) };
    let hooks = settle(&mut l, Ok(reply), decode_project);
    assert_eq!(l.count(), 0);
    assert!(!l.is_loading());
    assert!(matches!(hooks[0], Hook::Done));
    match &hooks[1] {
        Hook::Success((id, name)) => {
            assert_eq!(*id, 42);
            assert_eq!(name, "P");
        }
        _ => panic!("expected success"),
    }
}

#[test]
fn project_reply_missing_field_never_succeeds() {
    let mut l = busy(1);
    let reply = HttpReply { status: 200, text: Some("{\"id\":42,\"is_public\":true}".to_string()) };
    let hooks = settle(&mut l, Ok(reply), decode_project);
    assert_eq!(hooks.len(), 2);
    assert!(!hooks.iter().any(|h| matches!(h, Hook::Success(_))));
    match &hooks[1] {
        Hook::Error(ApiError::Decode(m)) => {
            assert_eq!(m, "Could not decode Api response: missing field `name`")
        }
        _ => panic!("expected a decode error"),
    }
}

#[test]
fn check_reply_hands_back_body() {
    let r = check_reply(Ok(HttpReply { status: 200, text: Some("[]".to_string()) }));
    assert_eq!(r.ok(), Some("[]".to_string()));
}

#[test]
fn loading_counts_in_flight_requests() {
    let mut l = Loading::new();
    assert!(!l.is_loading());
    l.start_loading();
    l.start_loading();
    assert_eq!(l.count(), 2);
    l.loading_done();
    assert!(l.is_loading());
    l.loading_done();
    l.loading_done();
    assert_eq!(l.count(), 0);
}

fn decode_unit(text: &String) -> Result<(), String> {
    serde_json::from_str::<()>(text).map_err(|e| e.to_string())
}

#[test]
fn ack_with_empty_or_missing_body_succeeds() {
    let mut l = busy(3);
    for text in [None, Some(String::new())] {
        let hooks = settle_ack(&mut l, Ok(HttpReply { status: 200, text }), decode_unit);
        assert_eq!(count_done(&hooks), 1);
        assert_eq!(count_outcomes(&hooks), 1);
        assert!(matches!(hooks[1], Hook::Success(())));
    }
    let hooks = settle_ack(&mut l, Ok(HttpReply { status: 200, text: Some("null".to_string()) }), decode_unit);
    assert!(matches!(hooks[1], Hook::Success(())));
    assert_eq!(l.count(), 0);
}

#[test]
fn ack_errors_still_reported() {
    let mut l = busy(3);
    let hooks = settle_ack(&mut l, Ok(HttpReply { status: 403, text: None }), decode_unit);
    assert!(matches!(&hooks[1], Hook::Error(ApiError::Http { status: 403, .. })));
    let hooks = settle_ack(&mut l, Err("reset".to_string()), decode_unit);
    assert!(matches!(&hooks[1], Hook::Error(ApiError::Transport(_))));
    let hooks = settle_ack(&mut l, Ok(HttpReply { status: 200, text: Some("{\"x\":1}".to_string()) }), decode_unit);
    match &hooks[1] {
        Hook::Error(ApiError::Decode(m)) => assert!(m.starts_with("Could not decode Api response: ")),
        _ => panic!("expected a decode error"),
    }
    assert!(matches!(hooks[0], Hook::Done));
}

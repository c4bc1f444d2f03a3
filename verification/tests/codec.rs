//! Round-trip and exact-format tests for the persisted record codec.

use cruise::container::{Container, Status, Timestamp};
use cruise::state_codec::{deserialize_container, serialize_container};

fn sample() -> Container {
    Container {
        id: "c-1".to_string(),
        name: "n".to_string(),
        status: Status::Created,
        exit_code: -1,
        created_at: Some(Timestamp { secs: 1, nanos: 2 }),
        started_at: None,
        finished_at: None,
        command: "/bin/echo".to_string(),
        args: vec!["hi".to_string()],
    }
}

fn assert_same(a: &Container, b: &Container) {
    assert_eq!(a.id, b.id);
    assert_eq!(a.name, b.name);
    assert_eq!(a.status, b.status);
    assert_eq!(a.exit_code, b.exit_code);
    assert_eq!(a.created_at, b.created_at);
    assert_eq!(a.started_at, b.started_at);
    assert_eq!(a.finished_at, b.finished_at);
    assert_eq!(a.command, b.command);
    assert_eq!(a.args, b.args);
}

#[test]
fn serialize_exact_format() {
    let s = serialize_container(&sample());
    assert_eq!(
        s,
        "{\"id\":\"c-1\",\"name\":\"n\",\"status\":\"Created\",\"exit_code\":-1,\
         \"created_at\":{\"secs_since_epoch\":1,\"nanos_since_epoch\":2},\
         \"started_at\":null,\"finished_at\":null,\"command\":\"/bin/echo\",\
         \"args\":[\"hi\"]}"
    );
}

#[test]
fn round_trip_simple() {
    let c = sample();
    let s = serialize_container(&c);
    let d = deserialize_container(&s).expect("round trip");
    assert_same(&c, &d);
}

#[test]
fn round_trip_escapes_and_extremes() {
    let c = Container {
        id: "x".to_string(),
        name: "quote \" and backslash \\ here".to_string(),
        status: Status::Stopped,
        exit_code: i32::MIN,
        created_at: Some(Timestamp { secs: u64::MAX, nanos: 999_999_999 }),
        started_at: Some(Timestamp { secs: 0, nanos: 0 }),
        finished_at: None,
        command: "/bin/sh".to_string(),
        args: vec!["".to_string(), "a \"b\"".to_string(), "\\".to_string()],
    };
    let s = serialize_container(&c);
    let d = deserialize_container(&s).expect("round trip");
    assert_same(&c, &d);
}

#[test]
fn round_trip_every_status() {
    for status in [
        Status::Initialized,
        Status::Created,
        Status::Running,
        Status::Paused,
        Status::Stopped,
        Status::Unknown,
    ] {
        let mut c = sample();
        c.status = status;
        let s = serialize_container(&c);
        let d = deserialize_container(&s).expect("round trip");
        assert_eq!(d.status, status);
    }
}

#[test]
fn round_trip_empty_args() {
    let mut c = sample();
    c.args = vec![];
    let s = serialize_container(&c);
    assert!(s.contains("\"args\":[]"));
    let d = deserialize_container(&s).expect("round trip");
    assert!(d.args.is_empty());
}

#[test]
fn deserialize_rejects_garbage() {
    assert!(deserialize_container("").is_none());
    assert!(deserialize_container("not json at all").is_none());
    assert!(deserialize_container("{}").is_none());
    assert!(deserialize_container("{\"id\":\"x\"}").is_none());
    let good = serialize_container(&sample());
    let mut truncated = good.clone();
    truncated.pop();
    assert!(deserialize_container(&truncated).is_none());
    let mut trailing = good;
    trailing.push(' ');
    assert!(deserialize_container(&trailing).is_none());
}

#[test]
fn deserialize_rejects_out_of_range_numbers() {
    let s = serialize_container(&sample());
    let too_big = s.replace("\"exit_code\":-1", "\"exit_code\":2147483648");
    assert!(deserialize_container(&too_big).is_none());
    let fits = s.replace("\"exit_code\":-1", "\"exit_code\":2147483647");
    assert_eq!(deserialize_container(&fits).unwrap().exit_code, i32::MAX);
}

#[test]
fn serialized_form_is_json() {
    let s = serialize_container(&sample());
    let v: serde_json::Value = serde_json::from_str(&s).expect("valid JSON");
    assert_eq!(v.get("id").unwrap().as_str().unwrap(), "c-1");
    assert_eq!(v.get("status").unwrap().as_str().unwrap(), "Created");
    assert_eq!(v.get("exit_code").unwrap().as_i64().unwrap(), -1);
    assert!(v.get("started_at").unwrap().is_null());
    let created = v.get("created_at").unwrap();
    assert_eq!(created.get("secs_since_epoch").unwrap().as_u64().unwrap(), 1);
    assert_eq!(created.get("nanos_since_epoch").unwrap().as_u64().unwrap(), 2);
    assert_eq!(v.get("args").unwrap().as_array().unwrap().len(), 1);
}

#[test]
fn round_trip_unicode_content() {
    let mut c = sample();
    c.name = "snow \u{2603} and accents \u{e9}\u{f6}".to_string();
    c.command = "/bin/\u{4f60}\u{597d}".to_string();
    c.args = vec!["\u{1f680}".to_string()];
    let s = serialize_container(&c);
    let d = deserialize_container(&s).expect("round trip");
    assert_same(&c, &d);
}

#[test]
fn round_trip_many_args() {
    let mut c = sample();
    c.args = (0..17).map(|i| format!("arg-{}", i)).collect();
    let s = serialize_container(&c);
    let d = deserialize_container(&s).expect("round trip");
    assert_same(&c, &d);
}

//! Tests of the runtime adapter: the status table, command lines, the
//! spec rewrite, and state-output handling.

use cruise::container::{RuncStatus, Status};
use cruise::container_runtime::{
    ContainerRuntime, ContainerRuntimeError, RuncMethod, RuntimeCreateOptions, RuntimeSpecOptions,
    RuntimeStateOutcome,
};

fn rt() -> ContainerRuntime {
    ContainerRuntime::new("/usr/bin/runc".to_string())
}

#[test]
fn status_table() {
    let cases = [
        ("created", Status::Created),
        ("running", Status::Running),
        ("pausing", Status::Running),
        ("paused", Status::Paused),
        ("stopped", Status::Stopped),
        ("zombie", Status::Unknown),
        ("", Status::Unknown),
    ];
    for (word, expected) in cases {
        let got = Status::from_runc_status(&RuncStatus { status: word.to_string() });
        assert_eq!(got, expected);
    }
}

#[test]
fn method_words() {
    assert_eq!(RuncMethod::Spec.to_string(), "spec");
    assert_eq!(RuncMethod::Create.to_string(), "create");
    assert_eq!(RuncMethod::Start.to_string(), "start");
    assert_eq!(RuncMethod::Kill.to_string(), "kill");
    assert_eq!(RuncMethod::Delete.to_string(), "delete");
    assert_eq!(RuncMethod::State.to_string(), "state");
}

#[test]
fn command_lines() {
    let r = rt();
    let id = "abc".to_string();
    assert_eq!(r.start_container(&id), vec!["/usr/bin/runc", "start", "abc"]);
    assert_eq!(r.kill_container(&id), vec!["/usr/bin/runc", "kill", "abc", "9"]);
    assert_eq!(r.delete_container(&id), vec!["/usr/bin/runc", "delete", "abc"]);
    assert_eq!(r.state_query(&id), vec!["/usr/bin/runc", "state", "abc"]);

    let spec_req = r.new_runtime_spec(&RuntimeSpecOptions::new(
        "/b".to_string(),
        "/bin/echo".to_string(),
        vec!["hi".to_string()],
    ));
    assert_eq!(spec_req.spec_argv, vec!["/usr/bin/runc", "spec", "--bundle", "/b"]);
    assert_eq!(spec_req.config_path, "/b/config.json");

    let create_argv = r.create_container(&RuntimeCreateOptions::new(
        "/b".to_string(),
        "container.pidfile".to_string(),
        "abc".to_string(),
    ));
    assert_eq!(
        create_argv,
        vec![
            "/usr/bin/runc",
            "create",
            "--bundle",
            "/b",
            "--pid-file",
            "/b/container.pidfile",
            "abc"
        ]
    );
}

#[test]
fn spec_rewrite_replaces_command_and_terminal() {
    let opts = RuntimeSpecOptions::new(
        "/b".to_string(),
        "/bin/echo".to_string(),
        vec!["hello".to_string(), "world".to_string()],
    );
    let config = "{\"process\":{\"terminal\": true,\"args\":[\"sh\"]}}";
    let rewritten = ContainerRuntime::rewrite_spec_config(&opts, config);
    assert_eq!(
        rewritten,
        "{\"process\":{\"terminal\": false,\"args\":[\"/bin/echo\", \"hello\", \"world\"]}}"
    );
}

#[test]
fn spec_rewrite_without_tokens_is_identity() {
    let opts =
        RuntimeSpecOptions::new("/b".to_string(), "/bin/echo".to_string(), vec![]);
    let config = "{\"process\":{\"args\":[\"bash\"]}}";
    let rewritten = ContainerRuntime::rewrite_spec_config(&opts, config);
    assert_eq!(rewritten, config);
}

#[test]
fn spec_rewrite_replaces_only_first_occurrence() {
    let opts = RuntimeSpecOptions::new("/b".to_string(), "cmd".to_string(), vec![]);
    let config = "[\"sh\"] and again [\"sh\"]";
    let rewritten = ContainerRuntime::rewrite_spec_config(&opts, config);
    assert_eq!(rewritten, "[\"cmd\"] and again [\"sh\"]");
}

#[test]
fn state_output_running() {
    let r = rt();
    let id = "abc".to_string();
    let out = RuntimeStateOutcome::Output(
        "{\"ociVersion\":\"1.0.2\",\"id\":\"abc\",\"status\":\"running\",\"pid\":7}".to_string(),
    );
    assert_eq!(r.get_container_status(&id, &out).unwrap(), Status::Running);
}

#[test]
fn state_output_empty_is_not_found() {
    let r = rt();
    let id = "abc".to_string();
    let out = RuntimeStateOutcome::Output("".to_string());
    let err = r.get_container_status(&id, &out).unwrap_err();
    assert!(matches!(
        err,
        ContainerRuntimeError::ContainerNotFoundError { container_id } if container_id == "abc"
    ));
}

#[test]
fn state_output_garbage_is_parse_error() {
    let r = rt();
    let id = "abc".to_string();
    for bad in ["not json", "{\"nostatus\":1}", "{\"status\":7}", "[1,2,3]"] {
        let err = r.get_container_status(&id, &RuntimeStateOutcome::Output(bad.to_string()));
        assert!(matches!(
            err.unwrap_err(),
            ContainerRuntimeError::ParseContainerStatusError { .. }
        ));
    }
}

#[test]
fn state_output_unknown_word_is_unknown_status() {
    let r = rt();
    let id = "abc".to_string();
    let out = RuntimeStateOutcome::Output("{\"status\":\"exploded\"}".to_string());
    assert_eq!(r.get_container_status(&id, &out).unwrap(), Status::Unknown);
}

#[test]
fn state_spawn_failure_and_bad_text() {
    let r = rt();
    let id = "abc".to_string();
    let err = r
        .get_container_status(&id, &RuntimeStateOutcome::SpawnFailed("no binary".to_string()))
        .unwrap_err();
    assert!(matches!(
        err,
        ContainerRuntimeError::RuncError { method: RuncMethod::State, ref message, .. }
            if message == "no binary"
    ));
    let err = r.get_container_status(&id, &RuntimeStateOutcome::InvalidUtf8).unwrap_err();
    assert!(matches!(err, ContainerRuntimeError::ConvertContainerStatusError { .. }));
}

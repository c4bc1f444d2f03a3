//! End-to-end lifecycle scenarios over the manager, with the runtime's
//! replies scripted as plain outcomes.

use cruise::container::{Status, Timestamp};
use cruise::container_manager::{
    ContainerManager, ContainerManagerError, ContainerOptions, CreateOutcome, ReloadDisposition,
    RunOutcome,
};
use cruise::container_runtime::{ContainerRuntimeError, RuncMethod, RuntimeStateOutcome};
use cruise::container_store::ReadOutcome;
use cruise::state_codec::deserialize_container;

fn manager() -> ContainerManager {
    ContainerManager::new("/var/lib/cruise".to_string(), "/usr/bin/runc".to_string())
}

fn opts() -> ContainerOptions {
    ContainerOptions {
        name: "c1".to_string(),
        command: "/bin/echo".to_string(),
        args: vec!["hi".to_string()],
        rootfs_path: "/tmp/rootfs-fixture".to_string(),
    }
}

fn now() -> Timestamp {
    Timestamp { secs: 1_700_000_000, nanos: 0 }
}

fn scripted(status_word: &str) -> RuntimeStateOutcome {
    RuntimeStateOutcome::Output(format!("{{\"status\":\"{}\"}}", status_word))
}

#[test]
fn create_start_get_stop_delete_happy_path() {
    let mut m = manager();
    let id = "id-1".to_string();

    // create
    let req = m.create_container(opts(), id.clone(), now()).unwrap();
    assert_eq!(req.container_id, id);
    assert_eq!(req.container_dir, "/var/lib/cruise/containers/id-1");
    assert_eq!(req.bundle.bundle_dir, "/var/lib/cruise/containers/id-1/bundle");
    assert_eq!(req.bundle.rootfs_dir, "/var/lib/cruise/containers/id-1/bundle/rootfs");
    assert_eq!(req.bundle.rootfs_src, "/tmp/rootfs-fixture");
    assert_eq!(req.persist.state_path, "/var/lib/cruise/containers/id-1/container.state");
    assert_eq!(req.persist.temp_path, "/var/lib/cruise/containers/id-1/container.state.temp");
    // the persisted bytes hold the full created record
    let persisted = deserialize_container(&req.persist.contents).unwrap();
    assert_eq!(persisted.id, id);
    assert_eq!(persisted.status, Status::Created);
    assert_eq!(persisted.created_at, Some(now()));
    let returned = m.create_container_finish(&id, &CreateOutcome::Completed).unwrap();
    assert_eq!(returned, id);

    // get: runtime replies created
    let (got, _persist) = m.get_container(&id, &scripted("created")).unwrap();
    assert_eq!(got.status, Status::Created);
    assert_eq!(got.name, "c1");

    // start
    let argv = m.start_container_check(&id).unwrap();
    assert_eq!(argv, vec!["/usr/bin/runc", "start", "id-1"]);
    let start_now = Timestamp { secs: 1_700_000_100, nanos: 0 };
    let persist = m.start_container(&id, start_now, &RunOutcome::Done).unwrap();
    let persisted = deserialize_container(&persist.contents).unwrap();
    assert_eq!(persisted.status, Status::Running);
    assert_eq!(persisted.started_at, Some(start_now));

    // get: runtime replies running
    let (got, _persist) = m.get_container(&id, &scripted("running")).unwrap();
    assert_eq!(got.status, Status::Running);

    // stop
    let argv = m.stop_container_check(&id).unwrap();
    assert_eq!(argv, vec!["/usr/bin/runc", "kill", "id-1", "9"]);
    let persist = m.stop_container(&id, &RunOutcome::Done).unwrap();
    assert_eq!(deserialize_container(&persist.contents).unwrap().status, Status::Stopped);

    // get: runtime replies stopped
    let (got, _persist) = m.get_container(&id, &scripted("stopped")).unwrap();
    assert_eq!(got.status, Status::Stopped);

    // delete
    let argv = m.delete_container_check(&id).unwrap();
    assert_eq!(argv, vec!["/usr/bin/runc", "delete", "id-1"]);
    let dir = m.delete_container(&id, &RunOutcome::Done).unwrap();
    assert_eq!(dir, "/var/lib/cruise/containers/id-1");

    // gone
    let err = m.get_container(&id, &scripted("stopped")).unwrap_err();
    assert!(matches!(
        err,
        ContainerManagerError::ContainerNotFoundError { container_id } if container_id == "id-1"
    ));
    assert!(m.list_containers().unwrap().is_empty());
}

#[test]
fn create_failure_rolls_back() {
    let mut m = manager();
    let id = "id-2".to_string();
    let _req = m.create_container(opts(), id.clone(), now()).unwrap();
    let err = m
        .create_container_finish(&id, &CreateOutcome::SpecFailed("exit status 1".to_string()))
        .unwrap_err();
    assert!(matches!(
        err,
        ContainerManagerError::ContainerRuntimeError {
            source: ContainerRuntimeError::RuncError { method: RuncMethod::Spec, .. },
        }
    ));
    // the registry keeps no trace of the attempted id
    assert!(m.list_containers().unwrap().is_empty());
    let err = m.start_container_check(&id).unwrap_err();
    assert!(matches!(err, ContainerManagerError::ContainerNotFoundError { .. }));
}

#[test]
fn create_duplicate_id_fails_without_rollback() {
    let mut m = manager();
    let id = "id-3".to_string();
    m.create_container(opts(), id.clone(), now()).unwrap();
    m.create_container_finish(&id, &CreateOutcome::Completed).unwrap();
    let err = m.create_container(opts(), id.clone(), now()).unwrap_err();
    assert!(matches!(err, ContainerManagerError::ContainerMapError { .. }));
    // the existing record survives
    assert_eq!(m.list_containers().unwrap().len(), 1);
}

#[test]
fn stop_without_start_is_refused_and_changes_nothing() {
    let mut m = manager();
    let id = "id-4".to_string();
    m.create_container(opts(), id.clone(), now()).unwrap();
    m.create_container_finish(&id, &CreateOutcome::Completed).unwrap();
    let err = m.stop_container_check(&id).unwrap_err();
    assert!(matches!(
        err,
        ContainerManagerError::StopContainerNotInRunningStateError { container_id }
            if container_id == "id-4"
    ));
    let err = m.stop_container(&id, &RunOutcome::Done).unwrap_err();
    assert!(matches!(
        err,
        ContainerManagerError::StopContainerNotInRunningStateError { .. }
    ));
    let listed = m.list_containers().unwrap();
    assert_eq!(listed.len(), 1);
    assert_eq!(listed[0].status, Status::Created);
}

#[test]
fn start_twice_is_refused() {
    let mut m = manager();
    let id = "id-5".to_string();
    m.create_container(opts(), id.clone(), now()).unwrap();
    m.create_container_finish(&id, &CreateOutcome::Completed).unwrap();
    m.start_container(&id, now(), &RunOutcome::Done).unwrap();
    let err = m.start_container_check(&id).unwrap_err();
    assert!(matches!(
        err,
        ContainerManagerError::StartContainerNotInCreatedStateError { .. }
    ));
    // a running container cannot be deleted either
    let err = m.delete_container_check(&id).unwrap_err();
    assert!(matches!(
        err,
        ContainerManagerError::DeleteContainerNotInDeleteableStateError { .. }
    ));
}

#[test]
fn start_spawn_failure_changes_nothing() {
    let mut m = manager();
    let id = "id-6".to_string();
    m.create_container(opts(), id.clone(), now()).unwrap();
    m.create_container_finish(&id, &CreateOutcome::Completed).unwrap();
    let err = m
        .start_container(&id, now(), &RunOutcome::Failed("spawn failed".to_string()))
        .unwrap_err();
    assert!(matches!(
        err,
        ContainerManagerError::ContainerRuntimeError {
            source: ContainerRuntimeError::RuncError { method: RuncMethod::Start, .. },
        }
    ));
    assert_eq!(m.list_containers().unwrap()[0].status, Status::Created);
}

#[test]
fn reload_with_corrupt_state_file_removes_container() {
    let mut m = manager();
    let id = "id-7".to_string();
    let d = m.reload_container(&id, &ReadOutcome::Content("garbage".to_string()), &scripted(
        "running",
    ));
    assert!(matches!(
        d,
        ReloadDisposition::RemovedUnparseable { ref dir }
            if dir == "/var/lib/cruise/containers/id-7"
    ));
    assert!(m.list_containers().unwrap().is_empty());
}

#[test]
fn reload_with_unreadable_state_file_removes_container() {
    let mut m = manager();
    let id = "id-8".to_string();
    let d = m.reload_container(
        &id,
        &ReadOutcome::Unreadable("permission denied".to_string()),
        &scripted("running"),
    );
    assert!(matches!(d, ReloadDisposition::RemovedUnparseable { .. }));
}

#[test]
fn reload_with_valid_state_and_paused_runtime() {
    let mut m = manager();
    let id = "id-9".to_string();
    // a previously persisted record for this id
    let mut previous = manager();
    let req = previous.create_container(opts(), id.clone(), now()).unwrap();
    let d = m.reload_container(
        &id,
        &ReadOutcome::Content(req.persist.contents.clone()),
        &scripted("paused"),
    );
    assert!(matches!(d, ReloadDisposition::Kept { .. }));
    let listed = m.list_containers().unwrap();
    assert_eq!(listed.len(), 1);
    assert_eq!(listed[0].id, id);
    assert_eq!(listed[0].status, Status::Paused);
}

#[test]
fn reload_with_runtime_failure_removes_container() {
    let mut m = manager();
    let id = "id-10".to_string();
    let mut previous = manager();
    let req = previous.create_container(opts(), id.clone(), now()).unwrap();
    let d = m.reload_container(
        &id,
        &ReadOutcome::Content(req.persist.contents.clone()),
        &RuntimeStateOutcome::Output("".to_string()),
    );
    assert!(matches!(d, ReloadDisposition::RemovedUnsynced { .. }));
    assert!(m.list_containers().unwrap().is_empty());
}

#[test]
fn reload_with_mismatched_record_id_removes_container() {
    let mut m = manager();
    let mut previous = manager();
    let req = previous.create_container(opts(), "other-id".to_string(), now()).unwrap();
    let d = m.reload_container(
        &"id-11".to_string(),
        &ReadOutcome::Content(req.persist.contents.clone()),
        &scripted("running"),
    );
    assert!(matches!(d, ReloadDisposition::RemovedUnparseable { .. }));
}

#[test]
fn reload_of_existing_id_is_skipped() {
    let mut m = manager();
    let id = "id-12".to_string();
    m.create_container(opts(), id.clone(), now()).unwrap();
    m.create_container_finish(&id, &CreateOutcome::Completed).unwrap();
    let req = m.create_container(opts(), "tmp".to_string(), now()).unwrap();
    let replayed = req.persist.contents.replace("\"id\":\"tmp\"", "\"id\":\"id-12\"");
    m.create_container_finish(&"tmp".to_string(), &CreateOutcome::DirAlreadyExists).ok();
    let d = m.reload_container(&id, &ReadOutcome::Content(replayed), &scripted("running"));
    assert!(matches!(d, ReloadDisposition::SkippedExisting));
    // the original record is untouched
    assert_eq!(m.list_containers().unwrap()[0].status, Status::Created);
}

#[test]
fn list_during_in_flight_create_shows_created_never_initialized() {
    let mut m = manager();
    let id = "id-13".to_string();
    let _req = m.create_container(opts(), id.clone(), now()).unwrap();
    // the create is still in flight: no finish call yet
    let listed = m.list_containers().unwrap();
    assert_eq!(listed.len(), 1);
    assert_eq!(listed[0].id, id);
    assert_eq!(listed[0].status, Status::Created);
    for c in &listed {
        assert_ne!(c.status, Status::Initialized);
    }
}

#[test]
fn sync_updates_status_and_persists() {
    let mut m = manager();
    let id = "id-14".to_string();
    m.create_container(opts(), id.clone(), now()).unwrap();
    m.create_container_finish(&id, &CreateOutcome::Completed).unwrap();
    let persist = m.sync_container_status_with_runtime(&id, &scripted("pausing")).unwrap();
    // "pausing" counts as running
    assert_eq!(deserialize_container(&persist.contents).unwrap().status, Status::Running);
    assert_eq!(m.list_containers().unwrap()[0].status, Status::Running);
}

#[test]
fn delete_swallows_runtime_failure() {
    let mut m = manager();
    let id = "id-15".to_string();
    m.create_container(opts(), id.clone(), now()).unwrap();
    m.create_container_finish(&id, &CreateOutcome::Completed).unwrap();
    let dir = m
        .delete_container(&id, &RunOutcome::Failed("runtime refused".to_string()))
        .unwrap();
    assert_eq!(dir, "/var/lib/cruise/containers/id-15");
    assert!(m.list_containers().unwrap().is_empty());
}

#[test]
fn error_messages() {
    let mut m = manager();
    let err = m.get_container(&"ghost".to_string(), &scripted("running")).unwrap_err();
    assert_eq!(err.describe(), "container with container_id ghost not found");

    let id = "id-16".to_string();
    m.create_container(opts(), id.clone(), now()).unwrap();
    m.create_container_finish(&id, &CreateOutcome::Completed).unwrap();
    let err = m.stop_container_check(&id).unwrap_err();
    assert_eq!(
        err.describe(),
        "container with container_id id-16 is not in a running state"
    );
    m.start_container(&id, now(), &RunOutcome::Done).unwrap();
    let err = m.start_container_check(&id).unwrap_err();
    assert_eq!(
        err.describe(),
        "container with container_id id-16 is not in a created state"
    );
    let err = m.delete_container_check(&id).unwrap_err();
    assert_eq!(
        err.describe(),
        "container with container_id id-16 is not in a deleteable (created or stopped) state"
    );
    let err = m.create_container(opts(), id.clone(), now()).unwrap_err();
    assert_eq!(err.describe(), "container with container_id id-16 already exists");
    let err = m
        .start_container(&id, now(), &RunOutcome::Failed("boom".to_string()))
        .unwrap_err();
    assert_eq!(
        err.describe(),
        "container with container_id id-16 is not in a created state"
    );
    let err = m
        .sync_container_status_with_runtime(
            &id,
            &RuntimeStateOutcome::SpawnFailed("no binary".to_string()),
        )
        .unwrap_err();
    assert_eq!(err.describe(), "failed to execute runc state for container_id id-16");
}

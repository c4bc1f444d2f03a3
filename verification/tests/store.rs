//! Tests of the store's layout and request building.

use cruise::container::{Container, Status, Timestamp};
use cruise::container_store::{ContainerStore, ContainerStoreError, ReadOutcome};
use cruise::state_codec::serialize_container;

fn store() -> ContainerStore {
    ContainerStore::new("/var/lib/cruise".to_string())
}

fn sample(id: &str) -> Container {
    Container {
        id: id.to_string(),
        name: "n".to_string(),
        status: Status::Stopped,
        exit_code: -1,
        created_at: Some(Timestamp { secs: 5, nanos: 6 }),
        started_at: Some(Timestamp { secs: 7, nanos: 8 }),
        finished_at: None,
        command: "/bin/echo".to_string(),
        args: vec![],
    }
}

#[test]
fn layout_paths() {
    let s = store();
    let id = "abc".to_string();
    assert_eq!(s.containers_dir(), "/var/lib/cruise/containers");
    assert_eq!(s.specific_container_dir(&id), "/var/lib/cruise/containers/abc");
    assert_eq!(s.container_state_file(&id), "/var/lib/cruise/containers/abc/container.state");
    assert_eq!(
        s.temp_container_state_file(&id),
        "/var/lib/cruise/containers/abc/container.state.temp"
    );
    assert_eq!(s.bundle_dir(&id), "/var/lib/cruise/containers/abc/bundle");
    assert_eq!(s.rootfs_dir(&id), "/var/lib/cruise/containers/abc/bundle/rootfs");
    assert_eq!(s.create_container(&id), "/var/lib/cruise/containers/abc");
    assert_eq!(s.remove_container(&id), "/var/lib/cruise/containers/abc");
}

#[test]
fn bundle_request() {
    let s = store();
    let req = s.create_container_bundle(&"abc".to_string(), "/src/rootfs");
    assert_eq!(req.rootfs_dir, "/var/lib/cruise/containers/abc/bundle/rootfs");
    assert_eq!(req.rootfs_src, "/src/rootfs");
    assert_eq!(req.bundle_dir, "/var/lib/cruise/containers/abc/bundle");
}

#[test]
fn persist_request_is_atomic_shape() {
    let s = store();
    let c = sample("abc");
    let req = s.atomic_persist_container_state(&c);
    assert_eq!(req.state_path, "/var/lib/cruise/containers/abc/container.state");
    assert_eq!(req.temp_path, "/var/lib/cruise/containers/abc/container.state.temp");
    assert_ne!(req.temp_path, req.state_path);
    assert_eq!(req.contents, serialize_container(&c));
}

#[test]
fn read_state_distinguishes_unreadable_and_unparseable() {
    let s = store();
    let id = "abc".to_string();
    let err = s
        .read_container_state(&id, &ReadOutcome::Unreadable("no such file".to_string()))
        .unwrap_err();
    assert!(matches!(
        err,
        ContainerStoreError::ReadContainerStateFileError { ref message, .. }
            if message == "no such file"
    ));
    let err = s
        .read_container_state(&id, &ReadOutcome::Content("{broken".to_string()))
        .unwrap_err();
    assert!(matches!(err, ContainerStoreError::ParseContainerStateError { .. }));

    let good = serialize_container(&sample("abc"));
    let back = s.read_container_state(&id, &ReadOutcome::Content(good)).unwrap();
    assert_eq!(back.id, "abc");
    assert_eq!(back.status, Status::Stopped);
    assert_eq!(back.started_at, Some(Timestamp { secs: 7, nanos: 8 }));
}

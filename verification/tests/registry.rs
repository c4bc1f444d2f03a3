//! Tests of the in-memory registry.

use cruise::container::{new, rand_id, Status, Timestamp};
use cruise::container_map::{ContainerMap, ContainerMapError};

fn record(id: &str) -> cruise::container::Container {
    new(
        &id.to_string(),
        &"name".to_string(),
        &"/bin/true".to_string(),
        &vec!["a".to_string()],
    )
}

#[test]
fn add_get_list_remove() {
    let mut m = ContainerMap::new();
    assert!(m.list().unwrap().is_empty());
    m.add(record("a")).unwrap();
    m.add(record("b")).unwrap();
    let got = m.get(&"a".to_string()).unwrap();
    assert_eq!(got.id, "a");
    assert_eq!(got.status, Status::Initialized);
    assert_eq!(got.exit_code, -1);
    let listed = m.list().unwrap();
    assert_eq!(listed.len(), 2);
    m.remove(&"a".to_string());
    assert!(m.get(&"a".to_string()).is_err());
    assert_eq!(m.list().unwrap().len(), 1);
    // removal is idempotent
    m.remove(&"a".to_string());
    assert_eq!(m.list().unwrap().len(), 1);
}

#[test]
fn add_duplicate_fails() {
    let mut m = ContainerMap::new();
    m.add(record("a")).unwrap();
    let err = m.add(record("a")).unwrap_err();
    assert!(matches!(
        err,
        ContainerMapError::ContainerAlreadyExistsError { container_id } if container_id == "a"
    ));
    assert_eq!(m.list().unwrap().len(), 1);
}

#[test]
fn get_missing_fails() {
    let m = ContainerMap::new();
    let err = m.get(&"nope".to_string()).unwrap_err();
    assert!(matches!(
        err,
        ContainerMapError::ContainerNotFoundError { container_id } if container_id == "nope"
    ));
}

#[test]
fn field_updates() {
    let mut m = ContainerMap::new();
    m.add(record("a")).unwrap();
    m.update_status(&"a".to_string(), Status::Created).unwrap();
    m.update_creation_time(&"a".to_string(), Timestamp { secs: 7, nanos: 8 }).unwrap();
    m.update_start_time(&"a".to_string(), Timestamp { secs: 9, nanos: 10 }).unwrap();
    let got = m.get(&"a".to_string()).unwrap();
    assert_eq!(got.status, Status::Created);
    assert_eq!(got.created_at, Some(Timestamp { secs: 7, nanos: 8 }));
    assert_eq!(got.started_at, Some(Timestamp { secs: 9, nanos: 10 }));
    assert_eq!(got.name, "name");

    let err = m.update_status(&"b".to_string(), Status::Running).unwrap_err();
    assert!(matches!(err, ContainerMapError::ContainerNotFoundError { .. }));
    assert!(m.update_creation_time(&"b".to_string(), Timestamp { secs: 0, nanos: 0 }).is_err());
    assert!(m.update_start_time(&"b".to_string(), Timestamp { secs: 0, nanos: 0 }).is_err());
}

#[test]
fn rand_id_is_36_chars_and_fresh() {
    let a = rand_id();
    let b = rand_id();
    assert_eq!(a.chars().count(), 36);
    assert_eq!(b.chars().count(), 36);
    assert_ne!(a, b);
}

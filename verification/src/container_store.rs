//! The on-disk layout of containers under a root directory: the per-container
//! paths, the contents of the atomic state-file write, and the reading of a
//! state file back into a record. The surrounding program performs the
//! filesystem effects these describe.

use vstd::prelude::*;
use vstd::string::StringExecFns;

use crate::container::{Container, ID};
use crate::text::string_of;
use crate::state_codec::{deserialize_container, serialize_container, spec_parse_container,
    spec_ser_container};

verus! {

/// Errors of the store.
#[derive(Debug)]
pub enum ContainerStoreError {
    /// The containers directory could not be created.
    CreateContainersDirError { message: String },
    /// The containers directory could not be enumerated.
    ReadContainersDirError { message: String },
    /// A container's own directory could not be created.
    CreateSpecificContainerDirError { container_id: ID, message: String },
    /// A container's directory already exists at create time.
    ContainerDirAlreadyExistsError { container_id: ID },
    /// The bundle's rootfs directory could not be created.
    CreateRootfsDirError { container_id: ID, message: String },
    /// The rootfs tree could not be copied into the bundle.
    CopyRootfsDirError { container_id: ID, message: String },
    /// The state file could not be written.
    PersistContainerStateError { container_id: ID, message: String },
    /// The state file could not be moved into place.
    RenameContainerStateFileError { container_id: ID, message: String },
    /// The state file could not be read.
    ReadContainerStateFileError { container_id: ID, message: String },
    /// The state file does not hold a serialized record.
    ParseContainerStateError { container_id: ID },
}

impl ContainerStoreError {
    /// The human-readable message for this error.
    pub open spec fn spec_describe(&self) -> Seq<char> {
        match self {
            ContainerStoreError::CreateContainersDirError { .. } => {
                "failed to create containers dir"@
            },
            ContainerStoreError::ReadContainersDirError { .. } => "failed to read containers dir"@,
            ContainerStoreError::CreateSpecificContainerDirError { container_id, .. } => {
                "failed to create container dir for container_id "@ + container_id@
            },
            ContainerStoreError::ContainerDirAlreadyExistsError { container_id } => {
                "container directory already exists for container_id "@ + container_id@
            },
            ContainerStoreError::CreateRootfsDirError { container_id, .. } => {
                "failed to create rootfs dir for container_id "@ + container_id@
            },
            ContainerStoreError::CopyRootfsDirError { container_id, .. } => {
                "failed to copy rootfs dir for container_id "@ + container_id@
            },
            ContainerStoreError::PersistContainerStateError { container_id, .. } => {
                "failed to persist container state for container_id "@ + container_id@
            },
            ContainerStoreError::RenameContainerStateFileError { container_id, .. } => {
                "failed to rename container state for container_id "@ + container_id@
            },
            ContainerStoreError::ReadContainerStateFileError { container_id, .. } => {
                "failed to read container state file for container_id "@ + container_id@
            },
            ContainerStoreError::ParseContainerStateError { container_id } => {
                "failed to parse container state for container_id "@ + container_id@
            },
        }
    }

    /// Renders the human-readable message.
    pub fn describe(&self) -> (r: String)
        ensures
            r@ == self.spec_describe(),
    {
        match self {
            ContainerStoreError::CreateContainersDirError { .. } => {
                string_of("failed to create containers dir")
            },
            ContainerStoreError::ReadContainersDirError { .. } => {
                string_of("failed to read containers dir")
            },
            ContainerStoreError::CreateSpecificContainerDirError { container_id, .. } => {
                let mut r = string_of("failed to create container dir for container_id ");
                r.append(container_id.as_str());
                r
            },
            ContainerStoreError::ContainerDirAlreadyExistsError { container_id } => {
                let mut r = string_of("container directory already exists for container_id ");
                r.append(container_id.as_str());
                r
            },
            ContainerStoreError::CreateRootfsDirError { container_id, .. } => {
                let mut r = string_of("failed to create rootfs dir for container_id ");
                r.append(container_id.as_str());
                r
            },
            ContainerStoreError::CopyRootfsDirError { container_id, .. } => {
                let mut r = string_of("failed to copy rootfs dir for container_id ");
                r.append(container_id.as_str());
                r
            },
            ContainerStoreError::PersistContainerStateError { container_id, .. } => {
                let mut r = string_of("failed to persist container state for container_id ");
                r.append(container_id.as_str());
                r
            },
            ContainerStoreError::RenameContainerStateFileError { container_id, .. } => {
                let mut r = string_of("failed to rename container state for container_id ");
                r.append(container_id.as_str());
                r
            },
            ContainerStoreError::ReadContainerStateFileError { container_id, .. } => {
                let mut r = string_of("failed to read container state file for container_id ");
                r.append(container_id.as_str());
                r
            },
            ContainerStoreError::ParseContainerStateError { container_id } => {
                let mut r = string_of("failed to parse container state for container_id ");
                r.append(container_id.as_str());
                r
            },
        }
    }
}

/// What reading a state file produced: its text, or the reason it could not
/// be read.
pub enum ReadOutcome {
    Content(String),
    Unreadable(String),
}

/// An atomic state write: put `contents` at `temp_path`, then rename
/// `temp_path` to `state_path`. The rename is the commit point, so a reader
/// of `state_path` sees the old state or the new one, never a mixture.
#[derive(Debug)]
pub struct PersistRequest {
    pub temp_path: String,
    pub state_path: String,
    pub contents: String,
}

/// A bundle to lay out: create `rootfs_dir`, then copy the tree under
/// `rootfs_src` into it.
#[derive(Debug)]
pub struct BundleRequest {
    pub rootfs_dir: String,
    pub rootfs_src: String,
    pub bundle_dir: String,
}

/// The directory that holds all containers.
pub open spec fn spec_containers_dir(root: Seq<char>) -> Seq<char> {
    root + "/containers"@
}

/// One container's directory.
pub open spec fn spec_container_dir(root: Seq<char>, id: Seq<char>) -> Seq<char> {
    spec_containers_dir(root) + "/"@ + id
}

/// One container's state file.
pub open spec fn spec_state_file(root: Seq<char>, id: Seq<char>) -> Seq<char> {
    spec_container_dir(root, id) + "/container.state"@
}

/// The scratch file beside the state file.
pub open spec fn spec_temp_state_file(root: Seq<char>, id: Seq<char>) -> Seq<char> {
    spec_state_file(root, id) + ".temp"@
}

/// One container's bundle directory.
pub open spec fn spec_bundle_dir(root: Seq<char>, id: Seq<char>) -> Seq<char> {
    spec_container_dir(root, id) + "/bundle"@
}

/// The rootfs directory inside a bundle.
pub open spec fn spec_rootfs_dir(root: Seq<char>, id: Seq<char>) -> Seq<char> {
    spec_bundle_dir(root, id) + "/rootfs"@
}

/// The store, configured with its root directory.
#[derive(Debug)]
pub struct ContainerStore {
    root_dir: String,
}

impl ContainerStore {
    /// The configured root directory.
    pub closed spec fn spec_root(&self) -> Seq<char> {
        self.root_dir@
    }

    /// Makes a store rooted at `root_dir`. The caller must ensure the
    /// containers directory exists (as by mkdir-p of `containers_dir`)
    /// before acting on any request the store builds.
    pub fn new(root_dir: String) -> (s: ContainerStore)
        ensures
            s.spec_root() == root_dir@,
    {
        ContainerStore { root_dir }
    }

    /// The directory that holds all containers.
    pub fn containers_dir(&self) -> (r: String)
        ensures
            r@ == spec_containers_dir(self.spec_root()),
    {
        self.root_dir.clone().concat("/containers")
    }

    /// One container's directory.
    pub fn specific_container_dir(&self, container_id: &ID) -> (r: String)
        ensures
            r@ == spec_container_dir(self.spec_root(), container_id@),
    {
        let mut r = self.containers_dir();
        r.append("/");
        r.append(container_id.as_str());
        r
    }

    /// One container's state file.
    pub fn container_state_file(&self, container_id: &ID) -> (r: String)
        ensures
            r@ == spec_state_file(self.spec_root(), container_id@),
    {
        let mut r = self.specific_container_dir(container_id);
        r.append("/container.state");
        r
    }

    /// The scratch file beside the state file.
    pub fn temp_container_state_file(&self, container_id: &ID) -> (r: String)
        ensures
            r@ == spec_temp_state_file(self.spec_root(), container_id@),
    {
        let mut r = self.container_state_file(container_id);
        r.append(".temp");
        r
    }

    /// One container's bundle directory.
    pub fn bundle_dir(&self, container_id: &ID) -> (r: String)
        ensures
            r@ == spec_bundle_dir(self.spec_root(), container_id@),
    {
        let mut r = self.specific_container_dir(container_id);
        r.append("/bundle");
        r
    }

    /// The rootfs directory inside a bundle.
    pub fn rootfs_dir(&self, container_id: &ID) -> (r: String)
        ensures
            r@ == spec_rootfs_dir(self.spec_root(), container_id@),
    {
        let mut r = self.bundle_dir(container_id);
        r.append("/rootfs");
        r
    }

    /// The directory to create for a new container. The caller must refuse
    /// with `ContainerDirAlreadyExistsError` if it already exists; creating
    /// it must be the first effect of a create flow, so rollback can key off
    /// its presence.
    pub fn create_container(&self, container_id: &ID) -> (dir: String)
        ensures
            dir@ == spec_container_dir(self.spec_root(), container_id@),
    {
        self.specific_container_dir(container_id)
    }

    /// The directory to remove, recursively and best-effort, when a container
    /// goes away.
    pub fn remove_container(&self, container_id: &ID) -> (dir: String)
        ensures
            dir@ == spec_container_dir(self.spec_root(), container_id@),
    {
        self.specific_container_dir(container_id)
    }

    /// The bundle layout for a new container: the rootfs directory to create
    /// and the source tree to copy into it; `bundle_dir` is where the runtime
    /// spec then goes.
    pub fn create_container_bundle(&self, container_id: &ID, rootfs: &str) -> (r: BundleRequest)
        ensures
            r.rootfs_dir@ == spec_rootfs_dir(self.spec_root(), container_id@),
            r.rootfs_src@ == rootfs@,
            r.bundle_dir@ == spec_bundle_dir(self.spec_root(), container_id@),
    {
        BundleRequest {
            rootfs_dir: self.rootfs_dir(container_id),
            rootfs_src: rootfs.to_owned(),
            bundle_dir: self.bundle_dir(container_id),
        }
    }

    /// The atomic write that persists a record: the full serialized record,
    /// never a partial one, aimed at the scratch path and committed by a
    /// rename onto the state path.
    pub fn atomic_persist_container_state(&self, container: &Container) -> (r: PersistRequest)
        ensures
            r.contents@ == spec_ser_container(container@),
            r.temp_path@ == spec_temp_state_file(self.spec_root(), container@.id),
            r.state_path@ == spec_state_file(self.spec_root(), container@.id),
            r.temp_path@ != r.state_path@,
    {
        let temp_path = self.temp_container_state_file(container.id());
        let state_path = self.container_state_file(container.id());
        let contents = serialize_container(container);
        proof {
            reveal_strlit(".temp");
            assert(temp_path@.len() == state_path@.len() + 5);
        }
        PersistRequest { temp_path, state_path, contents }
    }

    /// Turns what was read from a container's state file back into a record:
    /// unreadable files and unparseable contents are distinct errors.
    pub fn read_container_state(&self, container_id: &ID, read: &ReadOutcome) -> (r: Result<
        Container,
        ContainerStoreError,
    >)
        ensures
            match read {
                ReadOutcome::Unreadable(m) => r matches Err(
                    ContainerStoreError::ReadContainerStateFileError { container_id: cid, message },
                ) && cid@ == container_id@ && message@ == m@,
                ReadOutcome::Content(text) => match spec_parse_container(text@) {
                    Some(v) => r matches Ok(c) && c@ == v,
                    None => r matches Err(
                        ContainerStoreError::ParseContainerStateError { container_id: cid },
                    ) && cid@ == container_id@,
                },
            },
    {
        match read {
            ReadOutcome::Unreadable(m) => Err(ContainerStoreError::ReadContainerStateFileError {
                container_id: container_id.clone(),
                message: m.clone(),
            }),
            ReadOutcome::Content(text) => match deserialize_container(text.as_str()) {
                Some(c) => Ok(c),
                None => Err(ContainerStoreError::ParseContainerStateError {
                    container_id: container_id.clone(),
                }),
            },
        }
    }
}

} // verus!

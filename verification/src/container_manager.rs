//! The container manager: composes the registry, the store and the runtime
//! adapter into lifecycle operations with rollback and startup
//! reconciliation.
//!
//! Filesystem and subprocess effects are performed by the surrounding
//! program: each operation hands out what to do (paths, command lines, file
//! contents) and consumes the outcomes as plain values, so every decision the
//! manager makes is verified.

use vstd::prelude::*;
use vstd::string::StringExecFns;

use crate::container::{
    new as new_container, spec_status_of_runc, Container, ContainerView, Status, Timestamp, ID,
};
use crate::container_map::{ContainerMap, ContainerMapError};
use crate::container_runtime::{
    json_status_field, ContainerRuntime, ContainerRuntimeError, RuncMethod, RuntimeCreateOptions,
    RuntimeSpecOptions, RuntimeSpecRequest, RuntimeStateOutcome,
};
use crate::container_store::{
    spec_bundle_dir, spec_container_dir, spec_rootfs_dir, spec_state_file, spec_temp_state_file,
    BundleRequest, ContainerStore, ContainerStoreError, PersistRequest, ReadOutcome,
};
use crate::state_codec::spec_ser_container;
use crate::text::string_of;

verus! {

/// What a caller supplies to create a container.
pub struct ContainerOptions {
    pub name: String,
    pub command: String,
    pub args: Vec<String>,
    pub rootfs_path: String,
}

/// Errors of the manager.
#[derive(Debug)]
pub enum ContainerManagerError {
    /// The container store could not be set up.
    CreateContainerStoreError { source: ContainerStoreError },
    /// Reconciliation at startup could not enumerate the store.
    ReloadError { source: ContainerStoreError },
    /// An error from the container store.
    ContainerStoreError { source: ContainerStoreError },
    /// No container with this id is known.
    ContainerNotFoundError { container_id: ID },
    /// An error from the registry.
    ContainerMapError { source: ContainerMapError },
    /// An error from the runtime adapter.
    ContainerRuntimeError { source: ContainerRuntimeError },
    /// Start was called on a container that is not in the created state.
    StartContainerNotInCreatedStateError { container_id: ID },
    /// Stop was called on a container that is not in the running state.
    StopContainerNotInRunningStateError { container_id: ID },
    /// Delete was called on a container that is neither created nor stopped.
    DeleteContainerNotInDeleteableStateError { container_id: ID },
}

impl ContainerManagerError {
    /// The human-readable message for this error.
    pub open spec fn spec_describe(&self) -> Seq<char> {
        match self {
            ContainerManagerError::CreateContainerStoreError { .. } => {
                "failed to create container store"@
            },
            ContainerManagerError::ReloadError { .. } => "failed to reload container manager"@,
            ContainerManagerError::ContainerStoreError { source } => source.spec_describe(),
            ContainerManagerError::ContainerNotFoundError { container_id } => {
                "container with container_id "@ + container_id@ + " not found"@
            },
            ContainerManagerError::ContainerMapError { source } => source.spec_describe(),
            ContainerManagerError::ContainerRuntimeError { source } => source.spec_describe(),
            ContainerManagerError::StartContainerNotInCreatedStateError { container_id } => {
                "container with container_id "@ + container_id@ + " is not in a created state"@
            },
            ContainerManagerError::StopContainerNotInRunningStateError { container_id } => {
                "container with container_id "@ + container_id@ + " is not in a running state"@
            },
            ContainerManagerError::DeleteContainerNotInDeleteableStateError { container_id } => {
                "container with container_id "@ + container_id@
                    + " is not in a deleteable (created or stopped) state"@
            },
        }
    }

    /// Renders the human-readable message.
    pub fn describe(&self) -> (r: String)
        ensures
            r@ == self.spec_describe(),
    {
        match self {
            ContainerManagerError::CreateContainerStoreError { .. } => {
                string_of("failed to create container store")
            },
            ContainerManagerError::ReloadError { .. } => {
                string_of("failed to reload container manager")
            },
            ContainerManagerError::ContainerStoreError { source } => source.describe(),
            ContainerManagerError::ContainerNotFoundError { container_id } => {
                let mut r = string_of("container with container_id ");
                r.append(container_id.as_str());
                r.append(" not found");
                r
            },
            ContainerManagerError::ContainerMapError { source } => source.describe(),
            ContainerManagerError::ContainerRuntimeError { source } => source.describe(),
            ContainerManagerError::StartContainerNotInCreatedStateError { container_id } => {
                let mut r = string_of("container with container_id ");
                r.append(container_id.as_str());
                r.append(" is not in a created state");
                r
            },
            ContainerManagerError::StopContainerNotInRunningStateError { container_id } => {
                let mut r = string_of("container with container_id ");
                r.append(container_id.as_str());
                r.append(" is not in a running state");
                r
            },
            ContainerManagerError::DeleteContainerNotInDeleteableStateError { container_id } => {
                let mut r = string_of("container with container_id ");
                r.append(container_id.as_str());
                r.append(" is not in a deleteable (created or stopped) state");
                r
            },
        }
    }
}

/// The outcome of running one of the runtime command lines, or of one
/// filesystem step: it was performed, or it failed with a reason.
pub enum RunOutcome {
    Done,
    Failed(String),
}

/// How far the surrounding program got with a create request's effects.
/// Every failure after the registry insertion triggers rollback.
pub enum CreateOutcome {
    /// All steps were performed, the state file rename included.
    Completed,
    /// The container directory already existed.
    DirAlreadyExists,
    /// The container directory could not be created.
    DirCreateFailed(String),
    /// The bundle's rootfs directory could not be created.
    RootfsDirFailed(String),
    /// The rootfs tree could not be copied.
    RootfsCopyFailed(String),
    /// Generating or rewriting the runtime spec failed.
    SpecFailed(String),
    /// The runtime create command could not be spawned.
    CreateSpawnFailed(String),
    /// The state file could not be written.
    PersistWriteFailed(String),
    /// The state file could not be moved into place.
    RenameFailed(String),
}

/// Everything the surrounding program must do for a create, in order:
/// create `container_dir` (failing if it exists), lay out the bundle, run
/// `spec_request` and rewrite the config it generates, spawn `create_argv`
/// without waiting, then perform `persist`. The outcome goes back into
/// `create_container_finish`.
#[derive(Debug)]
pub struct CreateRequest {
    pub container_id: ID,
    pub container_dir: String,
    pub bundle: BundleRequest,
    pub spec_options: RuntimeSpecOptions,
    pub spec_request: RuntimeSpecRequest,
    pub create_argv: Vec<String>,
    pub persist: PersistRequest,
}

/// What reconciliation decided for one on-disk container.
pub enum ReloadDisposition {
    /// The record was loaded and synchronized; perform the persist.
    Kept { persist: PersistRequest },
    /// The state file was unreadable, unparseable, or named another id:
    /// remove the directory.
    RemovedUnparseable { dir: String },
    /// A record with this id already exists; the directory stays.
    SkippedExisting,
    /// The runtime state could not be obtained: remove the directory.
    RemovedUnsynced { dir: String },
}

/// The record a successful create installs.
pub open spec fn spec_created_record(
    id: Seq<char>,
    name: Seq<char>,
    command: Seq<char>,
    args: Seq<Seq<char>>,
    now: Timestamp,
) -> ContainerView {
    ContainerView {
        id,
        name,
        status: Status::Created,
        exit_code: -1,
        created_at: Some(now),
        started_at: None,
        finished_at: None,
        command,
        args,
    }
}

/// The status that a runtime state outcome maps to, when it carries
/// one.
pub open spec fn spec_state_status(state: RuntimeStateOutcome) -> Option<Status> {
    match state {
        RuntimeStateOutcome::Output(s) => {
            if s@.len() == 0 {
                None
            } else {
                match json_status_field(s@) {
                    Some(st) => Some(spec_status_of_runc(st)),
                    None => None,
                }
            }
        },
        _ => None,
    }
}

/// Runtime reconciliation never reintroduces the pre-insertion state.
pub proof fn lemma_runc_status_never_initialized(s: Seq<char>)
    ensures
        spec_status_of_runc(s) != Status::Initialized,
{
}

/// Identifiers of successful creates are distinct: a create succeeds only on
/// an id absent from the registry and inserts it, so a second successful
/// create, while the first record is still present, returns another id.
pub proof fn lemma_create_ids_distinct(
    m0: Map<Seq<char>, ContainerView>,
    m1: Map<Seq<char>, ContainerView>,
    id1: Seq<char>,
    v1: ContainerView,
    id2: Seq<char>,
)
    requires
        !m0.dom().contains(id1),
        m1 == m0.insert(id1, v1),
        !m1.dom().contains(id2),
    ensures
        id1 != id2,
{
    assert(m1.dom().contains(id1));
}

/// Maps a registry error to the manager's error space: an absent id is
/// surfaced as not-found, anything else is wrapped.
fn from_map_error(err: ContainerMapError) -> (r: ContainerManagerError)
    ensures
        err matches ContainerMapError::ContainerNotFoundError { container_id } ==> r matches
            ContainerManagerError::ContainerNotFoundError { container_id: c } && c@
            == container_id@,
        err matches ContainerMapError::ContainerAlreadyExistsError { container_id } ==> (r matches
            ContainerManagerError::ContainerMapError { source } && source matches
            ContainerMapError::ContainerAlreadyExistsError { container_id: c } && c@
            == container_id@),
{
    match err {
        ContainerMapError::ContainerNotFoundError { container_id } => {
            ContainerManagerError::ContainerNotFoundError { container_id }
        },
        ContainerMapError::ContainerAlreadyExistsError { container_id } => {
            ContainerManagerError::ContainerMapError {
                source: ContainerMapError::ContainerAlreadyExistsError { container_id },
            }
        },
    }
}

/// Maps a runtime error to the manager's error space: an unknown container
/// is surfaced as not-found, anything else is wrapped.
fn from_runtime_error(err: ContainerRuntimeError) -> (r: ContainerManagerError)
    ensures
        err matches ContainerRuntimeError::ContainerNotFoundError { container_id } ==> r matches
            ContainerManagerError::ContainerNotFoundError { container_id: c } && c@
            == container_id@,
        err matches ContainerRuntimeError::RuncError { method, container_id, message } ==> (
        r matches ContainerManagerError::ContainerRuntimeError { source } && source matches
            ContainerRuntimeError::RuncError { method: m2, container_id: c2, message: g2 } && m2
            == method && c2@ == container_id@ && g2@ == message@),
        err matches ContainerRuntimeError::ConvertContainerStatusError { container_id } ==> (
        r matches ContainerManagerError::ContainerRuntimeError { source } && source matches
            ContainerRuntimeError::ConvertContainerStatusError { container_id: c2 } && c2@
            == container_id@),
        err matches ContainerRuntimeError::ParseContainerStatusError { container_id } ==> (
        r matches ContainerManagerError::ContainerRuntimeError { source } && source matches
            ContainerRuntimeError::ParseContainerStatusError { container_id: c2 } && c2@
            == container_id@),
{
    match err {
        ContainerRuntimeError::ContainerNotFoundError { container_id } => {
            ContainerManagerError::ContainerNotFoundError { container_id }
        },
        other => ContainerManagerError::ContainerRuntimeError { source: other },
    }
}

/// The manager, composing the registry, the store and the runtime adapter.
#[derive(Debug)]
pub struct ContainerManager {
    container_map: ContainerMap,
    container_store: ContainerStore,
    container_runtime: ContainerRuntime,
}

impl View for ContainerManager {
    type V = Map<Seq<char>, ContainerView>;

    closed spec fn view(&self) -> Map<Seq<char>, ContainerView> {
        self.container_map@
    }
}

impl ContainerManager {
    /// Well-formedness: the registry is well-formed and never holds a record
    /// in the pre-insertion state, so no lifecycle call can observe one.
    pub closed spec fn wf(self) -> bool {
        &&& self.container_map.wf()
        &&& forall|id: Seq<char>|
            self.container_map@.dom().contains(id) ==> #[trigger] self.container_map@[id].status
                != Status::Initialized
    }

    /// The store's root directory.
    pub closed spec fn spec_root(&self) -> Seq<char> {
        self.container_store.spec_root()
    }

    /// The runtime binary's path.
    pub closed spec fn spec_runtime_path(&self) -> Seq<char> {
        self.container_runtime.spec_path()
    }

    /// Makes a manager over `root_dir` and the runtime at `runtime_path`,
    /// with an empty registry. The surrounding program must ensure the
    /// containers directory exists, then reconcile every on-disk id through
    /// `reload_container` before exposing the manager to callers.
    pub fn new(root_dir: String, runtime_path: String) -> (m: ContainerManager)
        ensures
            m.wf(),
            m@ == Map::<Seq<char>, ContainerView>::empty(),
            m.spec_root() == root_dir@,
            m.spec_runtime_path() == runtime_path@,
    {
        ContainerManager {
            container_map: ContainerMap::new(),
            container_store: ContainerStore::new(root_dir),
            container_runtime: ContainerRuntime::new(runtime_path),
        }
    }

    /// The store, for computing paths.
    pub fn store(&self) -> (r: &ContainerStore)
        ensures
            r.spec_root() == self.spec_root(),
    {
        &self.container_store
    }

    /// The runtime adapter, for building command lines.
    pub fn runtime(&self) -> (r: &ContainerRuntime)
        ensures
            r.spec_path() == self.spec_runtime_path(),
    {
        &self.container_runtime
    }

    /// Begins a create: installs the new record and hands out every effect
    /// the create needs. Fails, changing nothing, when the id is already
    /// taken.
    pub fn create_container(
        &mut self,
        opts: ContainerOptions,
        container_id: ID,
        now: Timestamp,
    ) -> (r: Result<CreateRequest, ContainerManagerError>)
        requires
            old(self).wf(),
        ensures
            final(self).wf(),
            final(self).spec_root() == old(self).spec_root(),
            final(self).spec_runtime_path() == old(self).spec_runtime_path(),
            old(self)@.dom().contains(container_id@) ==> {
                &&& r matches Err(ContainerManagerError::ContainerMapError { source })
                    && source matches ContainerMapError::ContainerAlreadyExistsError {
                    container_id: c,
                } && c@ == container_id@
                &&& final(self)@ == old(self)@
            },
            !old(self)@.dom().contains(container_id@) ==> {
                &&& r matches Ok(req) && {
                    let record = spec_created_record(
                        container_id@,
                        opts.name@,
                        opts.command@,
                        opts.args.deep_view(),
                        now,
                    );
                    &&& final(self)@ == old(self)@.insert(container_id@, record)
                    &&& req.container_id@ == container_id@
                    &&& req.container_dir@ == spec_container_dir(
                        old(self).spec_root(),
                        container_id@,
                    )
                    &&& req.bundle.rootfs_src@ == opts.rootfs_path@
                    &&& req.bundle.rootfs_dir@ == spec_rootfs_dir(
                        old(self).spec_root(),
                        container_id@,
                    )
                    &&& req.bundle.bundle_dir@ == spec_bundle_dir(
                        old(self).spec_root(),
                        container_id@,
                    )
                    &&& req.spec_request.spec_argv.deep_view() == seq![
                        old(self).spec_runtime_path(),
                        "spec"@,
                        "--bundle"@,
                        req.bundle.bundle_dir@,
                    ]
                    &&& req.spec_request.config_path@ == req.bundle.bundle_dir@
                        + "/config.json"@
                    &&& req.spec_options.command@ == opts.command@
                    &&& req.spec_options.args.deep_view() == opts.args.deep_view()
                    &&& req.spec_options.bundle_path@ == req.bundle.bundle_dir@
                    &&& req.create_argv.deep_view() == seq![
                        old(self).spec_runtime_path(),
                        "create"@,
                        "--bundle"@,
                        req.bundle.bundle_dir@,
                        "--pid-file"@,
                        req.bundle.bundle_dir@ + "/"@ + "container.pidfile"@,
                        container_id@,
                    ]
                    &&& req.persist.contents@ == spec_ser_container(record)
                    &&& req.persist.temp_path@ == spec_temp_state_file(
                        old(self).spec_root(),
                        container_id@,
                    )
                    &&& req.persist.state_path@ == spec_state_file(
                        old(self).spec_root(),
                        container_id@,
                    )
                }
            },
    {
        let mut record = new_container(&container_id, &opts.name, &opts.command, &opts.args);
        record.status = Status::Created;
        record.created_at = Some(now);
        let persist = self.container_store.atomic_persist_container_state(&record);
        match self.container_map.add(record) {
            Ok(_) => {},
            Err(e) => {
                return Err(from_map_error(e));
            },
        }
        let container_dir = self.container_store.create_container(&container_id);
        let bundle = self.container_store.create_container_bundle(
            &container_id,
            opts.rootfs_path.as_str(),
        );
        let spec_options = RuntimeSpecOptions::new(
            bundle.bundle_dir.clone(),
            opts.command,
            opts.args,
        );
        let spec_request = self.container_runtime.new_runtime_spec(&spec_options);
        let create_opts = RuntimeCreateOptions::new(
            bundle.bundle_dir.clone(),
            string_of("container.pidfile"),
            container_id.clone(),
        );
        let create_argv = self.container_runtime.create_container(&create_opts);
        Ok(
            CreateRequest {
                container_id,
                container_dir,
                bundle,
                spec_options,
                spec_request,
                create_argv,
                persist,
            },
        )
    }

    /// Ends a create. On any failed step the record is withdrawn, so that the
    /// registry keeps no trace of the attempted id, and the step's own error
    /// is returned; the caller then removes the request's container directory,
    /// best-effort, to clear the store as well.
    pub fn create_container_finish(&mut self, container_id: &ID, outcome: &CreateOutcome) -> (r:
        Result<ID, ContainerManagerError>)
        requires
            old(self).wf(),
        ensures
            final(self).wf(),
            final(self).spec_root() == old(self).spec_root(),
            final(self).spec_runtime_path() == old(self).spec_runtime_path(),
            outcome is Completed ==> {
                &&& r matches Ok(id) && id@ == container_id@
                &&& final(self)@ == old(self)@
            },
            !(outcome is Completed) ==> {
                &&& final(self)@ == old(self)@.remove(container_id@)
                &&& r matches Err(e) && {
                    match outcome {
                        CreateOutcome::DirAlreadyExists => e matches
                            ContainerManagerError::ContainerStoreError { source }
                            && source matches ContainerStoreError::ContainerDirAlreadyExistsError {
                            container_id: c,
                        } && c@ == container_id@,
                        CreateOutcome::DirCreateFailed(m) => e matches
                            ContainerManagerError::ContainerStoreError { source }
                            && source matches
                            ContainerStoreError::CreateSpecificContainerDirError {
                            container_id: c,
                            message,
                        } && c@ == container_id@ && message@ == m@,
                        CreateOutcome::RootfsDirFailed(m) => e matches
                            ContainerManagerError::ContainerStoreError { source }
                            && source matches ContainerStoreError::CreateRootfsDirError {
                            container_id: c,
                            message,
                        } && c@ == container_id@ && message@ == m@,
                        CreateOutcome::RootfsCopyFailed(m) => e matches
                            ContainerManagerError::ContainerStoreError { source }
                            && source matches ContainerStoreError::CopyRootfsDirError {
                            container_id: c,
                            message,
                        } && c@ == container_id@ && message@ == m@,
                        CreateOutcome::SpecFailed(m) => e matches
                            ContainerManagerError::ContainerRuntimeError { source }
                            && source matches ContainerRuntimeError::RuncError {
                            method,
                            message,
                            ..
                        } && method == RuncMethod::Spec && message@ == m@,
                        CreateOutcome::CreateSpawnFailed(m) => e matches
                            ContainerManagerError::ContainerRuntimeError { source }
                            && source matches ContainerRuntimeError::RuncError {
                            method,
                            message,
                            ..
                        } && method == RuncMethod::Create && message@ == m@,
                        CreateOutcome::PersistWriteFailed(m) => e matches
                            ContainerManagerError::ContainerStoreError { source }
                            && source matches ContainerStoreError::PersistContainerStateError {
                            container_id: c,
                            message,
                        } && c@ == container_id@ && message@ == m@,
                        CreateOutcome::RenameFailed(m) => e matches
                            ContainerManagerError::ContainerStoreError { source }
                            && source matches ContainerStoreError::RenameContainerStateFileError {
                            container_id: c,
                            message,
                        } && c@ == container_id@ && message@ == m@,
                        CreateOutcome::Completed => true,
                    }
                }
            },
    {
        match outcome {
            CreateOutcome::Completed => Ok(container_id.clone()),
            CreateOutcome::DirAlreadyExists => {
                self.container_map.remove(container_id);
                Err(ContainerManagerError::ContainerStoreError {
                    source: ContainerStoreError::ContainerDirAlreadyExistsError {
                        container_id: container_id.clone(),
                    },
                })
            },
            CreateOutcome::DirCreateFailed(m) => {
                self.container_map.remove(container_id);
                Err(ContainerManagerError::ContainerStoreError {
                    source: ContainerStoreError::CreateSpecificContainerDirError {
                        container_id: container_id.clone(),
                        message: m.clone(),
                    },
                })
            },
            CreateOutcome::RootfsDirFailed(m) => {
                self.container_map.remove(container_id);
                Err(ContainerManagerError::ContainerStoreError {
                    source: ContainerStoreError::CreateRootfsDirError {
                        container_id: container_id.clone(),
                        message: m.clone(),
                    },
                })
            },
            CreateOutcome::RootfsCopyFailed(m) => {
                self.container_map.remove(container_id);
                Err(ContainerManagerError::ContainerStoreError {
                    source: ContainerStoreError::CopyRootfsDirError {
                        container_id: container_id.clone(),
                        message: m.clone(),
                    },
                })
            },
            CreateOutcome::SpecFailed(m) => {
                self.container_map.remove(container_id);
                Err(ContainerManagerError::ContainerRuntimeError {
                    source: ContainerRuntimeError::RuncError {
                        method: RuncMethod::Spec,
                        container_id: string_of(""),
                        message: m.clone(),
                    },
                })
            },
            CreateOutcome::CreateSpawnFailed(m) => {
                self.container_map.remove(container_id);
                Err(ContainerManagerError::ContainerRuntimeError {
                    source: ContainerRuntimeError::RuncError {
                        method: RuncMethod::Create,
                        container_id: string_of(""),
                        message: m.clone(),
                    },
                })
            },
            CreateOutcome::PersistWriteFailed(m) => {
                self.container_map.remove(container_id);
                Err(ContainerManagerError::ContainerStoreError {
                    source: ContainerStoreError::PersistContainerStateError {
                        container_id: container_id.clone(),
                        message: m.clone(),
                    },
                })
            },
            CreateOutcome::RenameFailed(m) => {
                self.container_map.remove(container_id);
                Err(ContainerManagerError::ContainerStoreError {
                    source: ContainerStoreError::RenameContainerStateFileError {
                        container_id: container_id.clone(),
                        message: m.clone(),
                    },
                })
            },
        }
    }

    /// Checks that the container may be started and hands out the start
    /// command line. Nothing changes; callers run the command and then call
    /// `start_container`.
    pub fn start_container_check(&self, container_id: &ID) -> (r: Result<
        Vec<String>,
        ContainerManagerError,
    >)
        requires
            self.wf(),
        ensures
            r is Ok <==> (self@.dom().contains(container_id@) && self@[container_id@].status
                == Status::Created),
            r matches Ok(argv) ==> argv.deep_view() == seq![
                self.spec_runtime_path(),
                "start"@,
                container_id@,
            ],
            !self@.dom().contains(container_id@) ==> (r matches Err(
                ContainerManagerError::ContainerNotFoundError { container_id: c },
            ) && c@ == container_id@),
            self@.dom().contains(container_id@) && self@[container_id@].status != Status::Created
                ==> (r matches Err(
                ContainerManagerError::StartContainerNotInCreatedStateError { container_id: c },
            ) && c@ == container_id@),
    {
        match self.container_map.get(container_id) {
            Ok(container) => {
                if container.status == Status::Created {
                    Ok(self.container_runtime.start_container(container_id))
                } else {
                    Err(ContainerManagerError::StartContainerNotInCreatedStateError {
                        container_id: container_id.clone(),
                    })
                }
            },
            Err(e) => Err(from_map_error(e)),
        }
    }

    /// Ends a start: on success records the start time, moves the container
    /// to running and hands out the persist; a container not in the created
    /// state is refused unchanged, and a failed spawn changes nothing.
    pub fn start_container(&mut self, container_id: &ID, now: Timestamp, outcome: &RunOutcome) -> (
        r: Result<PersistRequest, ContainerManagerError>)
        requires
            old(self).wf(),
        ensures
            final(self).wf(),
            final(self).spec_root() == old(self).spec_root(),
            final(self).spec_runtime_path() == old(self).spec_runtime_path(),
            !old(self)@.dom().contains(container_id@) ==> (r matches Err(
                ContainerManagerError::ContainerNotFoundError { container_id: c },
            ) && c@ == container_id@ && final(self)@ == old(self)@),
            old(self)@.dom().contains(container_id@) && old(self)@[container_id@].status
                != Status::Created ==> (r matches Err(
                ContainerManagerError::StartContainerNotInCreatedStateError { container_id: c },
            ) && c@ == container_id@ && final(self)@ == old(self)@),
            old(self)@.dom().contains(container_id@) && old(self)@[container_id@].status
                == Status::Created ==> match outcome {
                RunOutcome::Failed(m) => r matches Err(
                    ContainerManagerError::ContainerRuntimeError { source },
                ) && source matches ContainerRuntimeError::RuncError {
                    method,
                    container_id: c,
                    message,
                } && method == RuncMethod::Start && c@ == container_id@ && message@ == m@ && final(self)@
                    == old(self)@,
                RunOutcome::Done => {
                    let updated = ContainerView {
                        status: Status::Running,
                        started_at: Some(now),
                        ..old(self)@[container_id@]
                    };
                    &&& final(self)@ == old(self)@.insert(container_id@, updated)
                    &&& r matches Ok(pr) && pr.contents@ == spec_ser_container(updated)
                        && pr.temp_path@ == spec_temp_state_file(
                        old(self).spec_root(),
                        container_id@,
                    ) && pr.state_path@ == spec_state_file(old(self).spec_root(), container_id@)
                },
            },
    {
        match self.container_map.get(container_id) {
            Ok(container) => {
                if container.status != Status::Created {
                    return Err(ContainerManagerError::StartContainerNotInCreatedStateError {
                        container_id: container_id.clone(),
                    });
                }
            },
            Err(e) => {
                return Err(from_map_error(e));
            },
        }
        match outcome {
            RunOutcome::Failed(m) => {
                return Err(ContainerManagerError::ContainerRuntimeError {
                    source: ContainerRuntimeError::RuncError {
                        method: RuncMethod::Start,
                        container_id: container_id.clone(),
                        message: m.clone(),
                    },
                });
            },
            RunOutcome::Done => {},
        }
        match self.container_map.update_start_time(container_id, now) {
            Ok(_) => {},
            Err(e) => {
                return Err(from_map_error(e));
            },
        }
        match self.container_map.update_status(container_id, Status::Running) {
            Ok(_) => {},
            Err(e) => {
                return Err(from_map_error(e));
            },
        }
        let updated = match self.container_map.get(container_id) {
            Ok(c) => c,
            Err(e) => {
                return Err(from_map_error(e));
            },
        };
        proof {
            assert(self@ =~= old(self)@.insert(
                container_id@,
                ContainerView {
                    status: Status::Running,
                    started_at: Some(now),
                    ..old(self)@[container_id@]
                },
            ));
        }
        Ok(self.container_store.atomic_persist_container_state(&updated))
    }

    /// Checks that the container may be stopped and hands out the kill
    /// command line (SIGKILL; no graceful signal is sent).
    pub fn stop_container_check(&self, container_id: &ID) -> (r: Result<
        Vec<String>,
        ContainerManagerError,
    >)
        requires
            self.wf(),
        ensures
            r is Ok <==> (self@.dom().contains(container_id@) && self@[container_id@].status
                == Status::Running),
            r matches Ok(argv) ==> argv.deep_view() == seq![
                self.spec_runtime_path(),
                "kill"@,
                container_id@,
                "9"@,
            ],
            !self@.dom().contains(container_id@) ==> (r matches Err(
                ContainerManagerError::ContainerNotFoundError { container_id: c },
            ) && c@ == container_id@),
            self@.dom().contains(container_id@) && self@[container_id@].status != Status::Running
                ==> (r matches Err(
                ContainerManagerError::StopContainerNotInRunningStateError { container_id: c },
            ) && c@ == container_id@),
    {
        match self.container_map.get(container_id) {
            Ok(container) => {
                if container.status == Status::Running {
                    Ok(self.container_runtime.kill_container(container_id))
                } else {
                    Err(ContainerManagerError::StopContainerNotInRunningStateError {
                        container_id: container_id.clone(),
                    })
                }
            },
            Err(e) => Err(from_map_error(e)),
        }
    }

    /// Ends a stop: on success moves the container to stopped and hands out
    /// the persist; the finish time is left for a future shim. A container
    /// not in the running state is refused unchanged.
    pub fn stop_container(&mut self, container_id: &ID, outcome: &RunOutcome) -> (r: Result<
        PersistRequest,
        ContainerManagerError,
    >)
        requires
            old(self).wf(),
        ensures
            final(self).wf(),
            final(self).spec_root() == old(self).spec_root(),
            final(self).spec_runtime_path() == old(self).spec_runtime_path(),
            !old(self)@.dom().contains(container_id@) ==> (r matches Err(
                ContainerManagerError::ContainerNotFoundError { container_id: c },
            ) && c@ == container_id@ && final(self)@ == old(self)@),
            old(self)@.dom().contains(container_id@) && old(self)@[container_id@].status
                != Status::Running ==> (r matches Err(
                ContainerManagerError::StopContainerNotInRunningStateError { container_id: c },
            ) && c@ == container_id@ && final(self)@ == old(self)@),
            old(self)@.dom().contains(container_id@) && old(self)@[container_id@].status
                == Status::Running ==> match outcome {
                RunOutcome::Failed(m) => r matches Err(
                    ContainerManagerError::ContainerRuntimeError { source },
                ) && source matches ContainerRuntimeError::RuncError {
                    method,
                    container_id: c,
                    message,
                } && method == RuncMethod::Kill && c@ == container_id@ && message@ == m@ && final(self)@
                    == old(self)@,
                RunOutcome::Done => {
                    let updated = ContainerView {
                        status: Status::Stopped,
                        ..old(self)@[container_id@]
                    };
                    &&& final(self)@ == old(self)@.insert(container_id@, updated)
                    &&& r matches Ok(pr) && pr.contents@ == spec_ser_container(updated)
                        && pr.temp_path@ == spec_temp_state_file(
                        old(self).spec_root(),
                        container_id@,
                    ) && pr.state_path@ == spec_state_file(old(self).spec_root(), container_id@)
                },
            },
    {
        match self.container_map.get(container_id) {
            Ok(container) => {
                if container.status != Status::Running {
                    return Err(ContainerManagerError::StopContainerNotInRunningStateError {
                        container_id: container_id.clone(),
                    });
                }
            },
            Err(e) => {
                return Err(from_map_error(e));
            },
        }
        match outcome {
            RunOutcome::Failed(m) => {
                return Err(ContainerManagerError::ContainerRuntimeError {
                    source: ContainerRuntimeError::RuncError {
                        method: RuncMethod::Kill,
                        container_id: container_id.clone(),
                        message: m.clone(),
                    },
                });
            },
            RunOutcome::Done => {},
        }
        match self.container_map.update_status(container_id, Status::Stopped) {
            Ok(_) => {},
            Err(e) => {
                return Err(from_map_error(e));
            },
        }
        let updated = match self.container_map.get(container_id) {
            Ok(c) => c,
            Err(e) => {
                return Err(from_map_error(e));
            },
        };
        proof {
            assert(self@ =~= old(self)@.insert(
                container_id@,
                ContainerView { status: Status::Stopped, ..old(self)@[container_id@] },
            ));
        }
        Ok(self.container_store.atomic_persist_container_state(&updated))
    }

    /// Checks that the container may be deleted and hands out the runtime
    /// delete command line. Errors of that command are logged and swallowed
    /// by the caller, so cleanup stays best-effort.
    pub fn delete_container_check(&self, container_id: &ID) -> (r: Result<
        Vec<String>,
        ContainerManagerError,
    >)
        requires
            self.wf(),
        ensures
            r is Ok <==> (self@.dom().contains(container_id@) && (self@[container_id@].status
                == Status::Created || self@[container_id@].status == Status::Stopped)),
            r matches Ok(argv) ==> argv.deep_view() == seq![
                self.spec_runtime_path(),
                "delete"@,
                container_id@,
            ],
            !self@.dom().contains(container_id@) ==> (r matches Err(
                ContainerManagerError::ContainerNotFoundError { container_id: c },
            ) && c@ == container_id@),
            self@.dom().contains(container_id@) && !(self@[container_id@].status == Status::Created
                || self@[container_id@].status == Status::Stopped) ==> (r matches Err(
                ContainerManagerError::DeleteContainerNotInDeleteableStateError {
                    container_id: c,
                },
            ) && c@ == container_id@),
    {
        match self.container_map.get(container_id) {
            Ok(container) => {
                if container.status == Status::Created || container.status == Status::Stopped {
                    Ok(self.container_runtime.delete_container(container_id))
                } else {
                    Err(ContainerManagerError::DeleteContainerNotInDeleteableStateError {
                        container_id: container_id.clone(),
                    })
                }
            },
            Err(e) => Err(from_map_error(e)),
        }
    }

    /// Ends a delete: withdraws the record and hands back the container
    /// directory for removal. The runtime command's outcome is deliberately
    /// not inspected. A container neither created nor stopped is refused
    /// unchanged.
    pub fn delete_container(&mut self, container_id: &ID, _outcome: &RunOutcome) -> (r: Result<
        String,
        ContainerManagerError,
    >)
        requires
            old(self).wf(),
        ensures
            final(self).wf(),
            final(self).spec_root() == old(self).spec_root(),
            final(self).spec_runtime_path() == old(self).spec_runtime_path(),
            !old(self)@.dom().contains(container_id@) ==> (r matches Err(
                ContainerManagerError::ContainerNotFoundError { container_id: c },
            ) && c@ == container_id@ && final(self)@ == old(self)@),
            old(self)@.dom().contains(container_id@) && !(old(self)@[container_id@].status
                == Status::Created || old(self)@[container_id@].status == Status::Stopped)
                ==> (r matches Err(
                ContainerManagerError::DeleteContainerNotInDeleteableStateError {
                    container_id: c,
                },
            ) && c@ == container_id@ && final(self)@ == old(self)@),
            old(self)@.dom().contains(container_id@) && (old(self)@[container_id@].status
                == Status::Created || old(self)@[container_id@].status == Status::Stopped) ==> {
                &&& r matches Ok(dir) && dir@ == spec_container_dir(
                    old(self).spec_root(),
                    container_id@,
                )
                &&& final(self)@ == old(self)@.remove(container_id@)
            },
    {
        match self.container_map.get(container_id) {
            Ok(container) => {
                if !(container.status == Status::Created || container.status == Status::Stopped) {
                    return Err(ContainerManagerError::DeleteContainerNotInDeleteableStateError {
                        container_id: container_id.clone(),
                    });
                }
            },
            Err(e) => {
                return Err(from_map_error(e));
            },
        }
        self.container_map.remove(container_id);
        Ok(self.container_store.remove_container(container_id))
    }

    /// Reconciles one container's status with what the runtime reported and
    /// hands out the persist of the updated record. Every failure leaves the
    /// registry unchanged; an id the registry or the runtime does not know
    /// is surfaced as not-found.
    pub fn sync_container_status_with_runtime(
        &mut self,
        container_id: &ID,
        state: &RuntimeStateOutcome,
    ) -> (r: Result<PersistRequest, ContainerManagerError>)
        requires
            old(self).wf(),
        ensures
            final(self).wf(),
            final(self).spec_root() == old(self).spec_root(),
            final(self).spec_runtime_path() == old(self).spec_runtime_path(),
            match spec_state_status(*state) {
                Some(st) => {
                    if old(self)@.dom().contains(container_id@) {
                        let updated = ContainerView { status: st, ..old(self)@[container_id@] };
                        &&& final(self)@ == old(self)@.insert(container_id@, updated)
                        &&& r matches Ok(pr) && pr.contents@ == spec_ser_container(updated)
                            && pr.temp_path@ == spec_temp_state_file(
                            old(self).spec_root(),
                            container_id@,
                        ) && pr.state_path@ == spec_state_file(
                            old(self).spec_root(),
                            container_id@,
                        )
                    } else {
                        &&& final(self)@ == old(self)@
                        &&& r matches Err(
                            ContainerManagerError::ContainerNotFoundError { container_id: c },
                        ) && c@ == container_id@
                    }
                },
                None => {
                    &&& final(self)@ == old(self)@
                    &&& r is Err
                    &&& state matches RuntimeStateOutcome::SpawnFailed(m) ==> (r matches Err(
                        ContainerManagerError::ContainerRuntimeError { source },
                    ) && source matches ContainerRuntimeError::RuncError {
                        method,
                        container_id: c,
                        message,
                    } && method == RuncMethod::State && c@ == container_id@ && message@ == m@)
                    &&& state is InvalidUtf8 ==> (r matches Err(
                        ContainerManagerError::ContainerRuntimeError { source },
                    ) && source matches ContainerRuntimeError::ConvertContainerStatusError {
                        container_id: c,
                    } && c@ == container_id@)
                    &&& (state matches RuntimeStateOutcome::Output(s) && s@.len() == 0)
                        ==> (r matches Err(
                        ContainerManagerError::ContainerNotFoundError { container_id: c },
                    ) && c@ == container_id@)
                    &&& (state matches RuntimeStateOutcome::Output(s) && s@.len() != 0
                        && json_status_field(s@) is None) ==> (r matches Err(
                        ContainerManagerError::ContainerRuntimeError { source },
                    ) && source matches ContainerRuntimeError::ParseContainerStatusError {
                        container_id: c,
                    } && c@ == container_id@)
                },
            },
    {
        let status = match self.container_runtime.get_container_status(container_id, state) {
            Ok(st) => st,
            Err(e) => {
                return Err(from_runtime_error(e));
            },
        };
        match self.container_map.update_status(container_id, status) {
            Ok(_) => {},
            Err(e) => {
                return Err(from_map_error(e));
            },
        }
        let updated = match self.container_map.get(container_id) {
            Ok(c) => c,
            Err(e) => {
                return Err(from_map_error(e));
            },
        };
        Ok(self.container_store.atomic_persist_container_state(&updated))
    }

    /// Reconciles the container's status with the given runtime report, then
    /// returns an owned copy of the record.
    pub fn get_container(&mut self, container_id: &ID, state: &RuntimeStateOutcome) -> (r: Result<
        (Box<Container>, PersistRequest),
        ContainerManagerError,
    >)
        requires
            old(self).wf(),
        ensures
            final(self).wf(),
            final(self).spec_root() == old(self).spec_root(),
            final(self).spec_runtime_path() == old(self).spec_runtime_path(),
            match spec_state_status(*state) {
                Some(st) => {
                    if old(self)@.dom().contains(container_id@) {
                        let updated = ContainerView { status: st, ..old(self)@[container_id@] };
                        &&& final(self)@ == old(self)@.insert(container_id@, updated)
                        &&& r matches Ok((c, pr)) && c@ == updated && pr.contents@
                            == spec_ser_container(updated)
                    } else {
                        &&& final(self)@ == old(self)@
                        &&& r matches Err(
                            ContainerManagerError::ContainerNotFoundError { container_id: c },
                        ) && c@ == container_id@
                    }
                },
                None => final(self)@ == old(self)@ && r is Err,
            },
    {
        let persist = match self.sync_container_status_with_runtime(container_id, state) {
            Ok(pr) => pr,
            Err(e) => {
                return Err(e);
            },
        };
        match self.container_map.get(container_id) {
            Ok(c) => Ok((c, persist)),
            Err(e) => Err(from_map_error(e)),
        }
    }

    /// Returns owned copies of all records: each is a registry record, every
    /// registered id occurs exactly once, and none is in the pre-insertion
    /// state. Callers that want runtime-fresh statuses reconcile each id
    /// first, as the startup path does.
    pub fn list_containers(&self) -> (r: Result<Vec<Container>, ContainerManagerError>)
        requires
            self.wf(),
        ensures
            r matches Ok(cs) && {
                &&& forall|j: int|
                    0 <= j < cs.len() ==> #[trigger] self@.dom().contains(cs[j]@.id)
                        && self@[cs[j]@.id] == cs[j]@
                &&& forall|id: Seq<char>|
                    #[trigger] self@.dom().contains(id) ==> exists|j: int|
                        0 <= j < cs.len() && #[trigger] cs[j]@.id == id
                &&& forall|j: int, k: int| 0 <= j < k < cs.len() ==> cs[j]@.id != cs[k]@.id
                &&& forall|j: int| 0 <= j < cs.len() ==> #[trigger] cs[j]@.status
                    != Status::Initialized
            },
    {
        match self.container_map.list() {
            Ok(cs) => {
                proof {
                    assert forall|j: int|
                        0 <= j < cs.len() implies #[trigger] cs[j]@.status
                        != Status::Initialized by {
                        assert(self@.dom().contains(cs[j]@.id));
                    }
                }
                Ok(cs)
            },
            Err(e) => Err(from_map_error(e)),
        }
    }

    /// Reconciles one on-disk container at startup. A state file that cannot
    /// be read or parsed, or that names a different id than its directory,
    /// marks the container corrupt: its directory is handed back for
    /// removal. A loadable record is installed and synchronized with the
    /// runtime; if that fails, both the record and the directory go. The
    /// registry gains the id exactly when the file parses to it and the
    /// runtime reported a status.
    pub fn reload_container(
        &mut self,
        container_id: &ID,
        file: &ReadOutcome,
        state: &RuntimeStateOutcome,
    ) -> (d: ReloadDisposition)
        requires
            old(self).wf(),
        ensures
            final(self).wf(),
            final(self).spec_root() == old(self).spec_root(),
            final(self).spec_runtime_path() == old(self).spec_runtime_path(),
            match file {
                ReadOutcome::Unreadable(_) => d matches ReloadDisposition::RemovedUnparseable {
                    dir,
                } && dir@ == spec_container_dir(old(self).spec_root(), container_id@) && final(self)@
                    == old(self)@,
                ReadOutcome::Content(text) => match crate::state_codec::spec_parse_container(
                    text@,
                ) {
                    None => d matches ReloadDisposition::RemovedUnparseable { dir } && dir@
                        == spec_container_dir(old(self).spec_root(), container_id@) && final(self)@
                        == old(self)@,
                    Some(v) => {
                        if v.id != container_id@ {
                            d matches ReloadDisposition::RemovedUnparseable { dir } && dir@
                                == spec_container_dir(old(self).spec_root(), container_id@)
                                && final(self)@ == old(self)@
                        } else if old(self)@.dom().contains(container_id@) {
                            d is SkippedExisting && final(self)@ == old(self)@
                        } else {
                            match spec_state_status(*state) {
                                Some(st) => {
                                    let updated = ContainerView { status: st, ..v };
                                    &&& final(self)@ == old(self)@.insert(container_id@, updated)
                                    &&& d matches ReloadDisposition::Kept { persist }
                                        && persist.contents@ == spec_ser_container(updated)
                                        && persist.temp_path@ == spec_temp_state_file(
                                        old(self).spec_root(),
                                        container_id@,
                                    ) && persist.state_path@ == spec_state_file(
                                        old(self).spec_root(),
                                        container_id@,
                                    )
                                },
                                None => d matches ReloadDisposition::RemovedUnsynced { dir }
                                    && dir@ == spec_container_dir(
                                    old(self).spec_root(),
                                    container_id@,
                                ) && final(self)@ == old(self)@,
                            }
                        }
                    },
                },
            },
    {
        let mut record = match self.container_store.read_container_state(container_id, file) {
            Ok(c) => c,
            Err(_) => {
                return ReloadDisposition::RemovedUnparseable {
                    dir: self.container_store.remove_container(container_id),
                };
            },
        };
        if !(record.id == *container_id) {
            return ReloadDisposition::RemovedUnparseable {
                dir: self.container_store.remove_container(container_id),
            };
        }
        if self.container_map.contains(container_id) {
            return ReloadDisposition::SkippedExisting;
        }
        let status = match self.container_runtime.get_container_status(container_id, state) {
            Ok(st) => st,
            Err(_) => {
                return ReloadDisposition::RemovedUnsynced {
                    dir: self.container_store.remove_container(container_id),
                };
            },
        };
        record.status = status;
        let persist = self.container_store.atomic_persist_container_state(&record);
        proof {
            assert(status != Status::Initialized);
        }
        match self.container_map.add(record) {
            Ok(_) => {},
            Err(_) => {
                // the id was just checked to be fresh, so insertion cannot collide
                proof {
                    assert(false);
                }
                return ReloadDisposition::SkippedExisting;
            },
        }
        ReloadDisposition::Kept { persist }
    }
}

} // verus!

//! The container record: its identifier, status enum, timestamps and the
//! mapping from the runtime's status strings.

use vstd::prelude::*;

verus! {

/// A container identifier: an opaque string, unique among live containers.
pub type ID = String;

/// Generates a fresh identifier.
///
/// Relies on `uuid::Uuid::new_v4` and the hyphenated `Display` form of
/// `uuid::Uuid`: the string is always 36 characters long. Freshness is
/// probabilistic and is not assumed here; callers that need a unique key
/// check it against the registry.
#[verifier::external_body]
pub fn rand_id() -> (id: ID)
    ensures
        id@.len() == 36,
{
    uuid::Uuid::new_v4().to_string()
}

/// The lifecycle status of a container.
///
/// `Initialized` is a pre-insertion state: a record is never persisted nor
/// handed out while in it. `Paused` and `Unknown` arise only from runtime
/// reconciliation, never from lifecycle calls themselves.
#[derive(Clone, Copy, Debug, PartialEq, Eq, Structural)]
pub enum Status {
    Initialized,
    Created,
    Running,
    Paused,
    Stopped,
    Unknown,
}

/// A wall-clock instant: seconds and subsecond nanoseconds since the epoch.
#[derive(Clone, Copy, Debug, PartialEq, Eq, Structural)]
pub struct Timestamp {
    pub secs: u64,
    pub nanos: u32,
}

/// The status object emitted by the runtime's state query.
pub struct RuncStatus {
    pub status: String,
}

/// The internal status each runtime status string stands for.
pub open spec fn spec_status_of_runc(s: Seq<char>) -> Status {
    if s == "created"@ {
        Status::Created
    } else if s == "running"@ {
        Status::Running
    } else if s == "pausing"@ {
        Status::Running
    } else if s == "paused"@ {
        Status::Paused
    } else if s == "stopped"@ {
        Status::Stopped
    } else {
        Status::Unknown
    }
}

impl Status {
    /// Maps the runtime's status string to the internal status.
    pub fn from_runc_status(runc_status: &RuncStatus) -> (s: Status)
        ensures
            s == spec_status_of_runc(runc_status.status@),
    {
        let st = &runc_status.status;
        if *st == "created".to_owned() {
            Status::Created
        } else if *st == "running".to_owned() {
            Status::Running
        } else if *st == "pausing".to_owned() {
            Status::Running
        } else if *st == "paused".to_owned() {
            Status::Paused
        } else if *st == "stopped".to_owned() {
            Status::Stopped
        } else {
            Status::Unknown
        }
    }
}

/// The mathematical value of a container record.
#[verifier::ext_equal]
pub struct ContainerView {
    pub id: Seq<char>,
    pub name: Seq<char>,
    pub status: Status,
    pub exit_code: int,
    pub created_at: Option<Timestamp>,
    pub started_at: Option<Timestamp>,
    pub finished_at: Option<Timestamp>,
    pub command: Seq<char>,
    pub args: Seq<Seq<char>>,
}

impl ContainerView {
    /// Record well-formedness: a container that has been created carries its
    /// creation time, and one that has run carries its start time.
    pub open spec fn wf(self) -> bool {
        &&& (self.status == Status::Created || self.status == Status::Running || self.status
            == Status::Stopped) ==> self.created_at is Some
        &&& (self.status == Status::Running || self.status == Status::Stopped)
            ==> self.started_at is Some
    }
}

/// A container record.
#[derive(Debug)]
pub struct Container {
    pub id: ID,
    pub name: String,
    pub status: Status,
    pub exit_code: i32,
    pub created_at: Option<Timestamp>,
    pub started_at: Option<Timestamp>,
    pub finished_at: Option<Timestamp>,
    pub command: String,
    pub args: Vec<String>,
}

impl View for Container {
    type V = ContainerView;

    open spec fn view(&self) -> ContainerView {
        ContainerView {
            id: self.id@,
            name: self.name@,
            status: self.status,
            exit_code: self.exit_code as int,
            created_at: self.created_at,
            started_at: self.started_at,
            finished_at: self.finished_at,
            command: self.command@,
            args: self.args.deep_view(),
        }
    }
}

impl Container {
    /// The container's identifier.
    pub fn id(&self) -> (id: &ID)
        ensures
            id@ == self@.id,
    {
        &self.id
    }
}

impl Clone for Container {
    fn clone(&self) -> (r: Self)
        ensures
            r@ == self@,
    {
        let r = Container {
            id: self.id.clone(),
            name: self.name.clone(),
            status: self.status,
            exit_code: self.exit_code,
            created_at: self.created_at,
            started_at: self.started_at,
            finished_at: self.finished_at,
            command: self.command.clone(),
            args: clone_string_vec(&self.args),
        };
        assert(r@ =~= self@);
        r
    }
}

/// Clones a vector of strings, preserving its value.
pub fn clone_string_vec(v: &Vec<String>) -> (r: Vec<String>)
    ensures
        r.deep_view() == v.deep_view(),
{
    let mut r: Vec<String> = Vec::new();
    let mut i: usize = 0;
    while i < v.len()
        invariant
            i <= v.len(),
            r.len() == i,
            forall|j: int| 0 <= j < i ==> r@[j]@ == v@[j]@,
        decreases v.len() - i,
    {
        let s = v[i].clone();
        r.push(s);
        i += 1;
    }
    proof {
        assert forall|j: int| 0 <= j < v@.len() implies r.deep_view()[j] == v.deep_view()[j] by {
            assert(r.deep_view()[j] == r@[j]@);
            assert(v.deep_view()[j] == v@[j]@);
        }
        assert(r.deep_view() =~= v.deep_view());
    }
    r
}

/// Makes a fresh record in the `Initialized` state, with no timestamps and
/// the exit-code sentinel meaning "not yet known".
pub fn new(id: &ID, name: &String, command: &String, args: &Vec<String>) -> (c: Container)
    ensures
        c@ == (ContainerView {
            id: id@,
            name: name@,
            status: Status::Initialized,
            exit_code: -1,
            created_at: None::<Timestamp>,
            started_at: None::<Timestamp>,
            finished_at: None::<Timestamp>,
            command: command@,
            args: args.deep_view(),
        }),
{
    let c = Container {
        id: id.clone(),
        name: name.clone(),
        status: Status::Initialized,
        exit_code: -1,
        created_at: None,
        started_at: None,
        finished_at: None,
        command: command.clone(),
        args: clone_string_vec(args),
    };
    assert(c@ =~= (ContainerView {
        id: id@,
        name: name@,
        status: Status::Initialized,
        exit_code: -1,
        created_at: None::<Timestamp>,
        started_at: None::<Timestamp>,
        finished_at: None::<Timestamp>,
        command: command@,
        args: args.deep_view(),
    }));
    c
}

} // verus!

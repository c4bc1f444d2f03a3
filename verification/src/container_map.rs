//! The in-memory registry: a mapping from container id to container record,
//! with unique ids, viewed as a mathematical `Map`.

use vstd::prelude::*;
use vstd::pervasive::VecAdditionalExecFns;
use vstd::string::StringExecFns;

use crate::container::{Container, ContainerView, Status, Timestamp, ID};
use crate::text::string_of;

verus! {

/// Errors of the registry.
#[derive(Debug)]
pub enum ContainerMapError {
    ContainerAlreadyExistsError { container_id: ID },
    ContainerNotFoundError { container_id: ID },
}

impl ContainerMapError {
    /// The human-readable message for this error.
    pub open spec fn spec_describe(&self) -> Seq<char> {
        match self {
            ContainerMapError::ContainerAlreadyExistsError { container_id } => {
                "container with container_id "@ + container_id@ + " already exists"@
            },
            ContainerMapError::ContainerNotFoundError { container_id } => {
                "container with container_id "@ + container_id@ + " not found"@
            },
        }
    }

    /// Renders the human-readable message.
    pub fn describe(&self) -> (r: String)
        ensures
            r@ == self.spec_describe(),
    {
        match self {
            ContainerMapError::ContainerAlreadyExistsError { container_id } => {
                let mut r = string_of("container with container_id ");
                r.append(container_id.as_str());
                r.append(" already exists");
                r
            },
            ContainerMapError::ContainerNotFoundError { container_id } => {
                let mut r = string_of("container with container_id ");
                r.append(container_id.as_str());
                r.append(" not found");
                r
            },
        }
    }
}

/// The record views held in a sequence, as stored.
pub open spec fn views_of(s: Seq<Container>) -> Seq<ContainerView> {
    Seq::new(s.len(), |i: int| s[i]@)
}

/// Whether some record in `s` has id `id`.
pub open spec fn has_id(s: Seq<ContainerView>, id: Seq<char>) -> bool {
    exists|j: int| 0 <= j < s.len() && s[j].id == id
}

/// The index of the record with id `id`, provided one exists.
pub open spec fn idx_of(s: Seq<ContainerView>, id: Seq<char>) -> int {
    choose|j: int| 0 <= j < s.len() && s[j].id == id
}

/// Pairwise-distinct ids.
pub open spec fn unique_ids(s: Seq<ContainerView>) -> bool {
    forall|j: int, k: int| 0 <= j < k < s.len() ==> s[j].id != s[k].id
}

/// The mapping from id to record that a sequence of records denotes.
pub open spec fn map_of(s: Seq<ContainerView>) -> Map<Seq<char>, ContainerView> {
    Map::new(|id: Seq<char>| has_id(s, id), |id: Seq<char>| s[idx_of(s, id)])
}

proof fn lemma_idx_of(s: Seq<ContainerView>, id: Seq<char>)
    requires
        has_id(s, id),
    ensures
        0 <= idx_of(s, id) < s.len(),
        s[idx_of(s, id)].id == id,
{
    let j = choose|j: int| 0 <= j < s.len() && s[j].id == id;
    assert(0 <= j < s.len() && s[j].id == id);
}

proof fn lemma_idx_of_unique(s: Seq<ContainerView>, j: int)
    requires
        unique_ids(s),
        0 <= j < s.len(),
    ensures
        idx_of(s, s[j].id) == j,
{
    lemma_idx_of(s, s[j].id);
    let k = idx_of(s, s[j].id);
    if k != j {
        if k < j {
            assert(s[k].id != s[j].id);
        } else {
            assert(s[j].id != s[k].id);
        }
    }
}

proof fn lemma_map_of_push(s: Seq<ContainerView>, c: ContainerView)
    requires
        unique_ids(s),
        !has_id(s, c.id),
    ensures
        unique_ids(s.push(c)),
        map_of(s.push(c)) == map_of(s).insert(c.id, c),
{
    let t = s.push(c);
    assert forall|j: int, k: int| 0 <= j < k < t.len() implies t[j].id != t[k].id by {
        if k < s.len() {
            assert(s[j].id != s[k].id);
        } else {
            assert(t[k] == c);
            if t[j].id == c.id {
                assert(has_id(s, c.id));
            }
        }
    }
    assert forall|id: Seq<char>| #[trigger] has_id(t, id) <==> has_id(s, id) || id == c.id by {
        if has_id(t, id) {
            let j = choose|j: int| 0 <= j < t.len() && t[j].id == id;
            if j < s.len() {
                assert(s[j].id == id);
            }
        }
        if has_id(s, id) {
            let j = choose|j: int| 0 <= j < s.len() && s[j].id == id;
            assert(t[j].id == id);
        }
        if id == c.id {
            assert(t[s.len() as int].id == id);
        }
    }
    assert forall|id: Seq<char>| #[trigger] has_id(t, id) implies t[idx_of(t, id)] == map_of(
        s,
    ).insert(c.id, c)[id] by {
        lemma_idx_of(t, id);
        let j = idx_of(t, id);
        if id == c.id {
            if j < s.len() {
                assert(s[j].id == id);
                assert(has_id(s, c.id));
            }
            assert(t[j] == c);
        } else {
            assert(has_id(s, id));
            lemma_idx_of(s, id);
            let k = idx_of(s, id);
            assert(t[k].id == id);
            lemma_idx_of_unique(t, k);
            assert(j == k);
        }
    }
    assert(map_of(s.push(c)) =~= map_of(s).insert(c.id, c));
}

proof fn lemma_map_of_update(s: Seq<ContainerView>, i: int, c: ContainerView)
    requires
        unique_ids(s),
        0 <= i < s.len(),
        s[i].id == c.id,
    ensures
        unique_ids(s.update(i, c)),
        map_of(s.update(i, c)) == map_of(s).insert(c.id, c),
{
    let t = s.update(i, c);
    assert forall|j: int, k: int| 0 <= j < k < t.len() implies t[j].id != t[k].id by {
        assert(s[j].id != s[k].id);
        assert(t[j].id == if j == i { c.id } else { s[j].id });
        assert(t[k].id == if k == i { c.id } else { s[k].id });
    }
    assert forall|id: Seq<char>| #[trigger] has_id(t, id) <==> has_id(s, id) by {
        if has_id(t, id) {
            let j = choose|j: int| 0 <= j < t.len() && t[j].id == id;
            if j == i {
                assert(s[i].id == id);
            } else {
                assert(s[j].id == id);
            }
        }
        if has_id(s, id) {
            let j = choose|j: int| 0 <= j < s.len() && s[j].id == id;
            if j == i {
                assert(t[i].id == id);
            } else {
                assert(t[j].id == id);
            }
        }
    }
    assert forall|id: Seq<char>| #[trigger] has_id(t, id) implies t[idx_of(t, id)] == map_of(
        s,
    ).insert(c.id, c)[id] by {
        lemma_idx_of(t, id);
        let j = idx_of(t, id);
        if id == c.id {
            lemma_idx_of_unique(t, i);
            assert(t[i].id == c.id);
            assert(j == i);
        } else {
            assert(j != i);
            assert(s[j].id == id);
            lemma_idx_of(s, id);
            lemma_idx_of_unique(s, j);
        }
    }
    assert(map_of(t) =~= map_of(s).insert(c.id, c));
}

proof fn lemma_map_of_remove(s: Seq<ContainerView>, i: int)
    requires
        unique_ids(s),
        0 <= i < s.len(),
    ensures
        unique_ids(s.remove(i)),
        map_of(s.remove(i)) == map_of(s).remove(s[i].id),
{
    let t = s.remove(i);
    assert forall|j: int, k: int| 0 <= j < k < t.len() implies t[j].id != t[k].id by {
        let j0 = if j < i { j } else { j + 1 };
        let k0 = if k < i { k } else { k + 1 };
        assert(t[j] == s[j0]);
        assert(t[k] == s[k0]);
        assert(s[j0].id != s[k0].id);
    }
    assert forall|id: Seq<char>| #[trigger] has_id(t, id) <==> (has_id(s, id) && id != s[i].id) by {
        if has_id(t, id) {
            let j = choose|j: int| 0 <= j < t.len() && t[j].id == id;
            let j0 = if j < i { j } else { j + 1 };
            assert(t[j] == s[j0]);
            assert(s[j0].id == id);
            assert(j0 != i);
            if j0 < i {
                assert(s[j0].id != s[i].id);
            } else {
                assert(s[i].id != s[j0].id);
            }
        }
        if has_id(s, id) && id != s[i].id {
            let j0 = choose|j: int| 0 <= j < s.len() && s[j].id == id;
            assert(j0 != i);
            let j = if j0 < i { j0 } else { j0 - 1 };
            assert(t[j] == s[j0]);
            assert(t[j].id == id);
        }
    }
    assert forall|id: Seq<char>| #[trigger] has_id(t, id) implies t[idx_of(t, id)] == map_of(
        s,
    ).remove(s[i].id)[id] by {
        lemma_idx_of(t, id);
        let j = idx_of(t, id);
        let j0 = if j < i { j } else { j + 1 };
        assert(t[j] == s[j0]);
        assert(s[j0].id == id);
        lemma_idx_of(s, id);
        lemma_idx_of_unique(s, j0);
    }
    assert(map_of(t) =~= map_of(s).remove(s[i].id));
}

/// The in-memory registry of container records, keyed by id.
#[derive(Debug)]
pub struct ContainerMap {
    items: Vec<Container>,
}

impl View for ContainerMap {
    type V = Map<Seq<char>, ContainerView>;

    closed spec fn view(&self) -> Map<Seq<char>, ContainerView> {
        map_of(views_of(self.items@))
    }
}

impl ContainerMap {
    /// Well-formedness: the stored ids are pairwise distinct.
    pub closed spec fn wf(self) -> bool {
        unique_ids(views_of(self.items@))
    }

    /// Makes an empty registry.
    pub fn new() -> (m: ContainerMap)
        ensures
            m.wf(),
            m@ == Map::<Seq<char>, ContainerView>::empty(),
    {
        let m = ContainerMap { items: Vec::new() };
        proof {
            assert forall|id: Seq<char>| !has_id(views_of(m.items@), id) by {}
            assert(m@ =~= Map::<Seq<char>, ContainerView>::empty());
        }
        m
    }

    /// The index of the record with the given id, if present.
    fn index_of(&self, container_id: &ID) -> (r: Option<usize>)
        ensures
            match r {
                Some(i) => i < self.items@.len() && views_of(self.items@)[i as int].id
                    == container_id@,
                None => !has_id(views_of(self.items@), container_id@),
            },
    {
        let mut i: usize = 0;
        while i < self.items.len()
            invariant
                i <= self.items@.len(),
                forall|j: int| 0 <= j < i ==> views_of(self.items@)[j].id != container_id@,
            decreases self.items@.len() - i,
        {
            if self.items[i].id == *container_id {
                return Some(i);
            }
            i += 1;
        }
        None
    }

    /// Whether a record with the given id is present.
    pub fn contains(&self, container_id: &ID) -> (r: bool)
        ensures
            r == self@.dom().contains(container_id@),
    {
        self.index_of(container_id).is_some()
    }

    /// Inserts a record; fails if its id is already present.
    pub fn add(&mut self, container: Container) -> (r: Result<ID, ContainerMapError>)
        requires
            old(self).wf(),
        ensures
            final(self).wf(),
            old(self)@.dom().contains(container@.id) ==> {
                &&& r matches Err(ContainerMapError::ContainerAlreadyExistsError { container_id })
                    && container_id@ == container@.id
                &&& final(self)@ == old(self)@
            },
            !old(self)@.dom().contains(container@.id) ==> {
                &&& r matches Ok(container_id) && container_id@ == container@.id
                &&& final(self)@ == old(self)@.insert(container@.id, container@)
            },
    {
        if self.index_of(container.id()).is_some() {
            return Err(ContainerMapError::ContainerAlreadyExistsError {
                container_id: container.id().clone(),
            });
        }
        let container_id = container.id().clone();
        let ghost s0 = views_of(self.items@);
        let ghost cv = container@;
        self.items.push(container);
        proof {
            assert(views_of(self.items@) =~= s0.push(cv));
            lemma_map_of_push(s0, cv);
        }
        Ok(container_id)
    }

    /// Returns an owned copy of the record with the given id.
    pub fn get(&self, container_id: &ID) -> (r: Result<Box<Container>, ContainerMapError>)
        requires
            self.wf(),
        ensures
            match r {
                Ok(c) => self@.dom().contains(container_id@) && c@ == self@[container_id@] && c@.id
                    == container_id@,
                Err(e) => {
                    &&& !self@.dom().contains(container_id@)
                    &&& e matches ContainerMapError::ContainerNotFoundError { container_id: cid }
                        && cid@ == container_id@
                },
            },
    {
        match self.index_of(container_id) {
            Some(i) => {
                let c = self.items[i].clone();
                proof {
                    lemma_idx_of_unique(views_of(self.items@), i as int);
                }
                Ok(Box::new(c))
            },
            None => Err(ContainerMapError::ContainerNotFoundError {
                container_id: container_id.clone(),
            }),
        }
    }

    /// Returns owned copies of all records. The result enumerates the
    /// registry exactly: each element is a stored record, every stored id
    /// occurs, and no id occurs twice.
    pub fn list(&self) -> (r: Result<Vec<Container>, ContainerMapError>)
        requires
            self.wf(),
        ensures
            r matches Ok(cs) && {
                &&& forall|j: int|
                    0 <= j < cs.len() ==> #[trigger] self@.dom().contains(cs[j]@.id)
                        && self@[cs[j]@.id] == cs[j]@
                &&& forall|id: Seq<char>|
                    #[trigger] self@.dom().contains(id) ==> exists|j: int|
                        0 <= j < cs.len() && #[trigger] cs[j]@.id == id
                &&& forall|j: int, k: int| 0 <= j < k < cs.len() ==> cs[j]@.id != cs[k]@.id
            },
    {
        let mut cs: Vec<Container> = Vec::new();
        let mut i: usize = 0;
        while i < self.items.len()
            invariant
                self.wf(),
                i <= self.items@.len(),
                cs@.len() == i,
                forall|j: int| 0 <= j < i ==> cs@[j]@ == views_of(self.items@)[j],
            decreases self.items@.len() - i,
        {
            cs.push(self.items[i].clone());
            i += 1;
        }
        proof {
            let s = views_of(self.items@);
            assert forall|j: int|
                0 <= j < cs.len() implies #[trigger] self@.dom().contains(cs@[j]@.id) && self@[cs@[j]@.id]
                == cs@[j]@ by {
                assert(cs@[j]@ == s[j]);
                assert(has_id(s, s[j].id));
                lemma_idx_of_unique(s, j);
            }
            assert forall|id: Seq<char>| #[trigger] self@.dom().contains(id) implies exists|j: int|
                0 <= j < cs.len() && #[trigger] cs@[j]@.id == id by {
                lemma_idx_of(s, id);
                let j = idx_of(s, id);
                assert(cs@[j]@.id == id);
            }
            assert forall|j: int, k: int| 0 <= j < k < cs.len() implies cs@[j]@.id != cs@[k]@.id by {
                assert(cs@[j]@ == s[j]);
                assert(cs@[k]@ == s[k]);
            }
        }
        Ok(cs)
    }

    /// Removes the record with the given id; does nothing if it is absent.
    pub fn remove(&mut self, container_id: &ID)
        requires
            old(self).wf(),
        ensures
            final(self).wf(),
            final(self)@ == old(self)@.remove(container_id@),
    {
        match self.index_of(container_id) {
            Some(i) => {
                let ghost s0 = views_of(self.items@);
                proof {
                    lemma_idx_of_unique(s0, i as int);
                }
                self.items.remove(i);
                proof {
                    assert(views_of(self.items@) =~= s0.remove(i as int));
                    lemma_map_of_remove(s0, i as int);
                }
            },
            None => {
                proof {
                    assert(self@ =~= self@.remove(container_id@));
                }
            },
        }
    }

    /// Replaces one field of the record with the given id; fails if absent.
    /// The closure-free helpers below share this shape.
    fn update_with(
        &mut self,
        container_id: &ID,
        status: Option<Status>,
        created_at: Option<Timestamp>,
        started_at: Option<Timestamp>,
    ) -> (r: Result<(), ContainerMapError>)
        requires
            old(self).wf(),
        ensures
            final(self).wf(),
            old(self)@.dom().contains(container_id@) ==> {
                &&& r is Ok
                &&& final(self)@ == old(self)@.insert(
                    container_id@,
                    ContainerView {
                        status: if status is Some {
                            status->0
                        } else {
                            old(self)@[container_id@].status
                        },
                        created_at: if created_at is Some {
                            created_at
                        } else {
                            old(self)@[container_id@].created_at
                        },
                        started_at: if started_at is Some {
                            started_at
                        } else {
                            old(self)@[container_id@].started_at
                        },
                        ..old(self)@[container_id@]
                    },
                )
            },
            !old(self)@.dom().contains(container_id@) ==> {
                &&& r matches Err(ContainerMapError::ContainerNotFoundError { container_id: cid })
                    && cid@ == container_id@
                &&& final(self)@ == old(self)@
            },
    {
        match self.index_of(container_id) {
            Some(i) => {
                let ghost s0 = views_of(self.items@);
                proof {
                    lemma_idx_of_unique(s0, i as int);
                }
                let mut c = self.items[i].clone();
                match status {
                    Some(st) => {
                        c.status = st;
                    },
                    None => {},
                }
                match created_at {
                    Some(ts) => {
                        c.created_at = Some(ts);
                    },
                    None => {},
                }
                match started_at {
                    Some(ts) => {
                        c.started_at = Some(ts);
                    },
                    None => {},
                }
                let ghost cv = c@;
                self.items.set(i, c);
                proof {
                    assert(views_of(self.items@) =~= s0.update(i as int, cv));
                    lemma_map_of_update(s0, i as int, cv);
                    assert(cv =~= ContainerView {
                        status: if status is Some {
                            status->0
                        } else {
                            old(self)@[container_id@].status
                        },
                        created_at: if created_at is Some {
                            created_at
                        } else {
                            old(self)@[container_id@].created_at
                        },
                        started_at: if started_at is Some {
                            started_at
                        } else {
                            old(self)@[container_id@].started_at
                        },
                        ..old(self)@[container_id@]
                    });
                }
                Ok(())
            },
            None => Err(ContainerMapError::ContainerNotFoundError {
                container_id: container_id.clone(),
            }),
        }
    }

    /// Sets the status of the record with the given id; fails if absent.
    pub fn update_status(&mut self, container_id: &ID, status: Status) -> (r: Result<
        (),
        ContainerMapError,
    >)
        requires
            old(self).wf(),
        ensures
            final(self).wf(),
            old(self)@.dom().contains(container_id@) ==> {
                &&& r is Ok
                &&& final(self)@ == old(self)@.insert(
                    container_id@,
                    ContainerView { status, ..old(self)@[container_id@] },
                )
            },
            !old(self)@.dom().contains(container_id@) ==> {
                &&& r matches Err(ContainerMapError::ContainerNotFoundError { container_id: cid })
                    && cid@ == container_id@
                &&& final(self)@ == old(self)@
            },
    {
        self.update_with(container_id, Some(status), None, None)
    }

    /// Sets the creation time of the record with the given id; fails if absent.
    pub fn update_creation_time(&mut self, container_id: &ID, created_at: Timestamp) -> (r: Result<
        (),
        ContainerMapError,
    >)
        requires
            old(self).wf(),
        ensures
            final(self).wf(),
            old(self)@.dom().contains(container_id@) ==> {
                &&& r is Ok
                &&& final(self)@ == old(self)@.insert(
                    container_id@,
                    ContainerView { created_at: Some(created_at), ..old(self)@[container_id@] },
                )
            },
            !old(self)@.dom().contains(container_id@) ==> {
                &&& r matches Err(ContainerMapError::ContainerNotFoundError { container_id: cid })
                    && cid@ == container_id@
                &&& final(self)@ == old(self)@
            },
    {
        self.update_with(container_id, None, Some(created_at), None)
    }

    /// Sets the start time of the record with the given id; fails if absent.
    pub fn update_start_time(&mut self, container_id: &ID, started_at: Timestamp) -> (r: Result<
        (),
        ContainerMapError,
    >)
        requires
            old(self).wf(),
        ensures
            final(self).wf(),
            old(self)@.dom().contains(container_id@) ==> {
                &&& r is Ok
                &&& final(self)@ == old(self)@.insert(
                    container_id@,
                    ContainerView { started_at: Some(started_at), ..old(self)@[container_id@] },
                )
            },
            !old(self)@.dom().contains(container_id@) ==> {
                &&& r matches Err(ContainerMapError::ContainerNotFoundError { container_id: cid })
                    && cid@ == container_id@
                &&& final(self)@ == old(self)@
            },
    {
        self.update_with(container_id, None, None, Some(started_at))
    }
}

} // verus!

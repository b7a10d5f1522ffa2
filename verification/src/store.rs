//! An in-memory todo collection with the semantics of the document
//! database the program targets: insert assigns a fresh unique id, find
//! filters by status, update rewrites one record's status by id, delete
//! removes one record by id.

use vstd::prelude::*;
use crate::todo::{Filter, Status, Todo, TodoId, ID_SPACE};

verus! {

/// Mathematical image of one stored todo.
pub ghost struct Rec {
    pub id: u128,
    pub description: Seq<char>,
    pub status: Status,
}

/// The same record with another status; id and description are kept.
pub open spec fn with_status(r: Rec, status: Status) -> Rec {
    Rec { status, ..r }
}

/// One todo as stored: id assigned, description fixed at creation.
pub struct StoredTodo {
    pub id: TodoId,
    pub description: String,
    pub status: Status,
}

impl View for StoredTodo {
    type V = Rec;

    open spec fn view(&self) -> Rec {
        Rec { id: self.id.value, description: self.description@, status: self.status }
    }
}

impl Clone for StoredTodo {
    fn clone(&self) -> (r: StoredTodo)
        ensures
            r@ == self@,
    {
        StoredTodo { id: self.id, description: self.description.clone(), status: self.status }
    }
}

/// The records of a sequence of stored todos.
pub open spec fn recs(v: Seq<StoredTodo>) -> Seq<Rec> {
    Seq::new(v.len(), |i: int| v[i]@)
}

/// No two records share an id.
pub open spec fn unique_ids(s: Seq<Rec>) -> bool {
    forall|i: int, j: int| 0 <= i < j < s.len() ==> s[i].id != s[j].id
}

/// Some record carries the given id.
pub open spec fn has_id(s: Seq<Rec>, id: u128) -> bool {
    exists|i: int| 0 <= i < s.len() && s[i].id == id
}

/// The records a filter selects, in their stored order.
pub open spec fn filtered(s: Seq<Rec>, f: Filter) -> Seq<Rec>
    decreases s.len(),
{
    if s.len() == 0 {
        Seq::empty()
    } else if f.selects(s.last().status) {
        filtered(s.drop_last(), f).push(s.last())
    } else {
        filtered(s.drop_last(), f)
    }
}

/// The sequence after a status update by id: every record with that id
/// gets the new status, every other record is untouched.
pub open spec fn updated(s: Seq<Rec>, id: u128, status: Status) -> Seq<Rec> {
    s.map(|i: int, r: Rec| if r.id == id { with_status(r, status) } else { r })
}

/// The index of the record with the given id, when one exists.
pub open spec fn the_index(s: Seq<Rec>, id: u128) -> int {
    choose|i: int| 0 <= i < s.len() && s[i].id == id
}

/// The sequence after a deletion by id: the record with that id is
/// removed, or nothing changes when no record carries it.
pub open spec fn removed(s: Seq<Rec>, id: u128) -> Seq<Rec> {
    if has_id(s, id) {
        s.remove(the_index(s, id))
    } else {
        s
    }
}

/// What an update by id found and did.
#[derive(Clone, Copy, PartialEq, Eq, Structural, Debug)]
pub enum UpdateOutcome {
    /// One record matched the id and its status changed.
    Updated,
    /// No record carries the id.
    NotFound,
    /// One record matched the id but already had the requested status.
    Unchanged,
}

/// An in-memory todo collection: insertion order is kept, ids are
/// assigned from a counter and never reused.
pub struct TodoStore {
    todos: Vec<StoredTodo>,
    next_id: u128,
}

impl View for TodoStore {
    type V = Seq<Rec>;

    closed spec fn view(&self) -> Seq<Rec> {
        recs(self.todos@)
    }
}

impl TodoStore {
    /// Every id so far assigned lies below this bound, so a fresh one
    /// can never collide.
    pub closed spec fn id_bound(self) -> u128 {
        self.next_id
    }

    /// The store's invariant: ids are unique and below the id counter.
    pub open spec fn wf(self) -> bool {
        unique_ids(self@) && self.ids_assigned()
    }

    /// Every stored id was assigned by the counter.
    pub closed spec fn ids_assigned(self) -> bool {
        forall|i: int| 0 <= i < self@.len() ==> (#[trigger] self@[i].id) < self.next_id
    }

    /// An empty collection.
    pub fn new() -> (s: TodoStore)
        ensures
            s.wf(),
            s@ == Seq::<Rec>::empty(),
            s.id_bound() == 0,
    {
        let s = TodoStore { todos: Vec::new(), next_id: 0 };
        proof {
            assert(s@ =~= Seq::<Rec>::empty());
        }
        s
    }

    /// Inserts a not-yet-stored todo, assigning it the next fresh id:
    /// the collection grows by exactly that record, at the end.
    pub fn insert(&mut self, todo: Todo) -> (id: TodoId)
        requires
            old(self).wf(),
            old(self).id_bound() < ID_SPACE,
            todo.id is None,
        ensures
            final(self).wf(),
            id.wf(),
            id.value == old(self).id_bound(),
            final(self).id_bound() == old(self).id_bound() + 1,
            !has_id(old(self)@, id.value),
            final(self)@ == old(self)@.push(
                Rec { id: id.value, description: todo.description@, status: todo.status },
            ),
    {
        let id = TodoId { value: self.next_id };
        let stored = StoredTodo { id, description: todo.description, status: todo.status };
        self.todos.push(stored);
        self.next_id = self.next_id + 1;
        proof {
            assert(self@ =~= old(self)@.push(
                Rec { id: id.value, description: todo.description@, status: todo.status },
            ));
        }
        id
    }

    /// Copies out the records the filter selects, in stored order.
    pub fn find(&self, filter: Filter) -> (r: Vec<StoredTodo>)
        ensures
            recs(r@) == filtered(self@, filter),
    {
        let mut out: Vec<StoredTodo> = Vec::new();
        let mut i: usize = 0;
        proof {
            assert(recs(out@) =~= filtered(self@.subrange(0, 0), filter));
        }
        while i < self.todos.len()
            invariant
                i <= self.todos@.len(),
                self@.len() == self.todos@.len(),
                forall|j: int| 0 <= j < self@.len() ==> self@[j] == self.todos@[j]@,
                recs(out@) == filtered(self@.subrange(0, i as int), filter),
            decreases self.todos@.len() - i,
        {
            let ghost prefix = self@.subrange(0, i as int);
            let t = &self.todos[i];
            proof {
                assert(self@.subrange(0, (i + 1) as int).drop_last() =~= prefix);
                assert(self@.subrange(0, (i + 1) as int).last() == t@);
            }
            if filter.admits(t.status) {
                let copied = t.clone();
                out.push(copied);
                proof {
                    assert(recs(out@) =~= filtered(prefix, filter).push(t@));
                }
            }
            i += 1;
        }
        proof {
            assert(self@.subrange(0, self@.len() as int) =~= self@);
        }
        out
    }

    /// Rewrites the status of the record carrying the given id, and says
    /// what it found: the one matching record gets the new status, every
    /// other record — id, description and status — is untouched.
    pub fn update_status(&mut self, id: TodoId, status: Status) -> (r: UpdateOutcome)
        requires
            old(self).wf(),
        ensures
            final(self).wf(),
            final(self).id_bound() == old(self).id_bound(),
            final(self)@ == updated(old(self)@, id.value, status),
            r == UpdateOutcome::NotFound <==> !has_id(old(self)@, id.value),
            r == UpdateOutcome::Updated <==> exists|i: int|
                0 <= i < old(self)@.len() && old(self)@[i].id == id.value && (#[trigger] old(
                    self,
                )@[i].status) != status,
            r == UpdateOutcome::Unchanged <==> exists|i: int|
                0 <= i < old(self)@.len() && old(self)@[i].id == id.value && (#[trigger] old(
                    self,
                )@[i].status) == status,
    {
        let n = self.todos.len();
        let mut i: usize = 0;
        while i < n
            invariant
                n == self.todos@.len(),
                i <= n,
                self == old(self),
                old(self).wf(),
                forall|j: int| 0 <= j < i ==> (#[trigger] self@[j].id) != id.value,
            decreases n - i,
        {
            if self.todos[i].id.value == id.value {
                let had = self.todos[i].status;
                let found = self.todos.remove(i);
                let rewritten = StoredTodo { id: found.id, description: found.description, status };
                self.todos.insert(i, rewritten);
                proof {
                    assert(old(self)@[i as int].id == id.value);
                    assert(old(self)@[i as int].status == had);
                    assert forall|j: int|
                        0 <= j < old(self)@.len() && j != i implies (#[trigger] old(
                            self,
                        )@[j].id) != id.value by {
                        assert(unique_ids(old(self)@));
                    }
                    assert(self@ =~= updated(old(self)@, id.value, status));
                    assert forall|j: int|
                        0 <= j < old(self)@.len() && old(self)@[j].id == id.value implies (
                        #[trigger] old(self)@[j].status) == had by {
                        if j != i as int {
                            assert(old(self)@[j].id != id.value);
                        }
                    }
                }
                if had == status {
                    return UpdateOutcome::Unchanged;
                } else {
                    return UpdateOutcome::Updated;
                }
            }
            i += 1;
        }
        proof {
            assert(self@ =~= updated(old(self)@, id.value, status));
        }
        UpdateOutcome::NotFound
    }

    /// Removes the record carrying the given id, when one exists, and
    /// says whether it did; every other record is untouched.
    pub fn delete(&mut self, id: TodoId) -> (deleted: bool)
        requires
            old(self).wf(),
        ensures
            final(self).wf(),
            final(self).id_bound() == old(self).id_bound(),
            deleted == has_id(old(self)@, id.value),
            final(self)@ == removed(old(self)@, id.value),
    {
        let n = self.todos.len();
        let mut i: usize = 0;
        while i < n
            invariant
                n == self.todos@.len(),
                i <= n,
                self == old(self),
                old(self).wf(),
                forall|j: int| 0 <= j < i ==> (#[trigger] self@[j].id) != id.value,
            decreases n - i,
        {
            if self.todos[i].id.value == id.value {
                self.todos.remove(i);
                proof {
                    assert(old(self)@[i as int].id == id.value);
                    assert(has_id(old(self)@, id.value));
                    let k = the_index(old(self)@, id.value);
                    assert(0 <= k < old(self)@.len() && old(self)@[k].id == id.value);
                    if k != i as int {
                        assert(old(self)@[k].id != old(self)@[i as int].id);
                    }
                    assert(self@ =~= removed(old(self)@, id.value));
                }
                return true;
            }
            i += 1;
        }
        proof {
            assert(!has_id(old(self)@, id.value));
        }
        false
    }
}

} // verus!

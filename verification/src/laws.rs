//! Laws of the collection model: what creation, a status update and a
//! deletion mean for every later listing, stated over the record
//! sequences the store's contracts speak of.

use vstd::prelude::*;
use crate::todo::{Filter, Status};
use crate::store::{filtered, has_id, removed, the_index, unique_ids, updated, with_status, Rec};

verus! {

/// Some record in the listing under this filter carries the given id.
pub open spec fn listed(s: Seq<Rec>, f: Filter, id: u128) -> bool {
    exists|i: int| 0 <= i < filtered(s, f).len() && filtered(s, f)[i].id == id
}

/// The all-filter keeps the whole collection, in order.
pub proof fn lemma_filtered_all(s: Seq<Rec>)
    ensures
        filtered(s, Filter::All) == s,
    decreases s.len(),
{
    if s.len() > 0 {
        lemma_filtered_all(s.drop_last());
        assert(s.drop_last().push(s.last()) =~= s);
    } else {
        assert(filtered(s, Filter::All) =~= s);
    }
}

/// Every listed record passes the filter.
pub proof fn lemma_filtered_selected(s: Seq<Rec>, f: Filter)
    ensures
        forall|i: int|
            0 <= i < filtered(s, f).len() ==> f.selects((#[trigger] filtered(s, f)[i]).status),
    decreases s.len(),
{
    if s.len() > 0 {
        lemma_filtered_selected(s.drop_last(), f);
    }
}

/// Every listed record is a record of the collection.
pub proof fn lemma_filtered_subset(s: Seq<Rec>, f: Filter)
    ensures
        forall|i: int|
            0 <= i < filtered(s, f).len() ==> exists|j: int|
                0 <= j < s.len() && (#[trigger] filtered(s, f)[i]) == s[j],
    decreases s.len(),
{
    if s.len() > 0 {
        lemma_filtered_subset(s.drop_last(), f);
        assert forall|i: int| 0 <= i < filtered(s, f).len() implies exists|j: int|
            0 <= j < s.len() && (#[trigger] filtered(s, f)[i]) == s[j] by {
            if i < filtered(s.drop_last(), f).len() {
                let j = choose|j: int|
                    0 <= j < s.drop_last().len() && filtered(s.drop_last(), f)[i] == s.drop_last()[j];
                assert(filtered(s, f)[i] == s[j]);
            } else {
                assert(filtered(s, f)[i] == s[s.len() - 1]);
            }
        }
    }
}

/// A record the filter selects appears in the listing.
pub proof fn lemma_filtered_has_selected(s: Seq<Rec>, f: Filter, k: int)
    requires
        0 <= k < s.len(),
        f.selects(s[k].status),
    ensures
        exists|i: int| 0 <= i < filtered(s, f).len() && filtered(s, f)[i] == s[k],
    decreases s.len(),
{
    if k == s.len() - 1 {
        assert(filtered(s, f)[filtered(s.drop_last(), f).len() as int] == s[k]);
    } else {
        lemma_filtered_has_selected(s.drop_last(), f, k);
        let i = choose|i: int|
            0 <= i < filtered(s.drop_last(), f).len() && filtered(s.drop_last(), f)[i]
                == s.drop_last()[k];
        assert(filtered(s, f)[i] == s[k]);
    }
}

/// A freshly created todo is pending and appears in a later listing of
/// all todos and of pending todos, and in no listing of completed todos.
pub proof fn lemma_created_todo_listed(s: Seq<Rec>, r: Rec)
    requires
        r.status == Status::Pending,
        !has_id(s, r.id),
    ensures
        listed(s.push(r), Filter::All, r.id),
        listed(s.push(r), Filter::Pending, r.id),
        !listed(s.push(r), Filter::Completed, r.id),
{
    let t = s.push(r);
    assert(t.drop_last() =~= s);
    assert(t.last() == r);
    assert(filtered(t, Filter::All)[filtered(s, Filter::All).len() as int] == r);
    assert(filtered(t, Filter::Pending)[filtered(s, Filter::Pending).len() as int] == r);
    lemma_filtered_subset(s, Filter::Completed);
    lemma_filtered_selected(s, Filter::Completed);
    assert forall|i: int| 0 <= i < filtered(t, Filter::Completed).len() implies (
    #[trigger] filtered(t, Filter::Completed)[i]).id != r.id by {
        assert(filtered(t, Filter::Completed) == filtered(s, Filter::Completed));
        let j = choose|j: int|
            0 <= j < s.len() && filtered(s, Filter::Completed)[i] == s[j];
        assert(s[j].id == filtered(s, Filter::Completed)[i].id);
    }
}

/// After an existing todo's status is updated to completed, a completed
/// listing shows its id and a pending listing no longer does.
pub proof fn lemma_completed_update_listed(s: Seq<Rec>, id: u128)
    requires
        has_id(s, id),
    ensures
        listed(updated(s, id, Status::Completed), Filter::Completed, id),
        !listed(updated(s, id, Status::Completed), Filter::Pending, id),
{
    let t = updated(s, id, Status::Completed);
    let k = choose|k: int| 0 <= k < s.len() && s[k].id == id;
    assert(t[k] == with_status(s[k], Status::Completed));
    lemma_filtered_has_selected(t, Filter::Completed, k);
    lemma_filtered_subset(t, Filter::Pending);
    lemma_filtered_selected(t, Filter::Pending);
    assert forall|i: int| 0 <= i < filtered(t, Filter::Pending).len() implies (
    #[trigger] filtered(t, Filter::Pending)[i]).id != id by {
        let j = choose|j: int| 0 <= j < t.len() && filtered(t, Filter::Pending)[i] == t[j];
        if s[j].id == id {
            assert(t[j] == with_status(s[j], Status::Completed));
        } else {
            assert(t[j] == s[j]);
        }
    }
}

/// After a deletion, no record of the collection carries the deleted id.
pub proof fn lemma_removed_no_id(s: Seq<Rec>, id: u128)
    requires
        unique_ids(s),
    ensures
        forall|i: int| 0 <= i < removed(s, id).len() ==> (#[trigger] removed(s, id)[i]).id != id,
{
    if has_id(s, id) {
        let k = the_index(s, id);
        assert(0 <= k < s.len() && s[k].id == id);
        assert forall|i: int| 0 <= i < removed(s, id).len() implies (
        #[trigger] removed(s, id)[i]).id != id by {
            if i < k {
                assert(removed(s, id)[i] == s[i]);
            } else {
                assert(removed(s, id)[i] == s[i + 1]);
            }
        }
    }
}

/// A deleted todo appears in no later listing, whatever the filter.
pub proof fn lemma_deleted_todo_not_listed(s: Seq<Rec>, id: u128, f: Filter)
    requires
        unique_ids(s),
    ensures
        !listed(removed(s, id), f, id),
{
    let t = removed(s, id);
    lemma_removed_no_id(s, id);
    lemma_filtered_subset(t, f);
    assert forall|i: int| 0 <= i < filtered(t, f).len() implies (#[trigger] filtered(t, f)[i]).id
        != id by {
        let j = choose|j: int| 0 <= j < t.len() && filtered(t, f)[i] == t[j];
        assert(t[j].id != id);
    }
}

/// Only a status ever changes: creation leaves every present record as
/// it is, a status update keeps every record's id and description, and
/// a deletion only removes — every surviving record is one of the old
/// records, unchanged. A description is therefore fixed for as long as
/// its todo exists.
pub proof fn lemma_descriptions_immutable(s: Seq<Rec>, r: Rec, id: u128, status: Status)
    ensures
        forall|i: int| 0 <= i < s.len() ==> #[trigger] s.push(r)[i] == s[i],
        updated(s, id, status).len() == s.len(),
        forall|i: int|
            0 <= i < s.len() ==> (#[trigger] updated(s, id, status)[i]).id == s[i].id && updated(
                s,
                id,
                status,
            )[i].description == s[i].description,
        forall|i: int|
            0 <= i < removed(s, id).len() ==> s.contains(#[trigger] removed(s, id)[i]),
{
    lemma_removed_is_subset(s, id);
}

/// Every record that survives a deletion is one of the old records.
pub proof fn lemma_removed_is_subset(s: Seq<Rec>, id: u128)
    ensures
        forall|i: int|
            0 <= i < removed(s, id).len() ==> s.contains(#[trigger] removed(s, id)[i]),
{
    assert forall|i: int| 0 <= i < removed(s, id).len() implies s.contains(
        #[trigger] removed(s, id)[i],
    ) by {
        if has_id(s, id) {
            let k = the_index(s, id);
            assert(0 <= k < s.len() && s[k].id == id);
            if i < k {
                assert(removed(s, id)[i] == s[i]);
                s.lemma_index_contains(i);
            } else {
                assert(removed(s, id)[i] == s[i + 1]);
                s.lemma_index_contains(i + 1);
            }
        } else {
            assert(removed(s, id)[i] == s[i]);
            s.lemma_index_contains(i);
        }
    }
}

} // verus!

use todo_manager::store::{TodoStore, UpdateOutcome};
use todo_manager::todo::{Filter, Status, Todo, TodoId};

fn store_with(descriptions: &[&str]) -> (TodoStore, Vec<TodoId>) {
    let mut store = TodoStore::new();
    let mut ids = Vec::new();
    for d in descriptions {
        ids.push(store.insert(Todo::new(String::from(*d))));
    }
    (store, ids)
}

#[test]
fn new_todo_is_pending_without_id() {
    let todo = Todo::new(String::from("buy milk"));
    assert!(todo.id.is_none());
    assert_eq!(todo.description, "buy milk");
    assert_eq!(todo.status, Status::Pending);
}

#[test]
fn create_buy_milk_listed_as_all_and_pending_not_completed() {
    let (store, ids) = store_with(&["buy milk"]);
    let all = store.find(Filter::All);
    assert_eq!(all.len(), 1);
    assert_eq!(all[0].id, ids[0]);
    assert_eq!(all[0].description, "buy milk");
    assert_eq!(all[0].status, Status::Pending);
    let pending = store.find(Filter::Pending);
    assert_eq!(pending.len(), 1);
    assert_eq!(pending[0].id, ids[0]);
    let completed = store.find(Filter::Completed);
    assert!(completed.is_empty());
}

#[test]
fn completed_update_moves_todo_between_listings() {
    let (mut store, ids) = store_with(&["buy milk", "walk dog"]);
    let outcome = store.update_status(ids[0], Status::Completed);
    assert_eq!(outcome, UpdateOutcome::Updated);
    let completed = store.find(Filter::Completed);
    assert_eq!(completed.len(), 1);
    assert_eq!(completed[0].id, ids[0]);
    let pending = store.find(Filter::Pending);
    assert_eq!(pending.len(), 1);
    assert_eq!(pending[0].id, ids[1]);
}

#[test]
fn update_with_unknown_id_reports_not_found() {
    let (mut store, ids) = store_with(&["buy milk"]);
    let unknown = TodoId { value: ids[0].value + 1 };
    let outcome = store.update_status(unknown, Status::Completed);
    assert_eq!(outcome, UpdateOutcome::NotFound);
    let all = store.find(Filter::All);
    assert_eq!(all.len(), 1);
    assert_eq!(all[0].status, Status::Pending);
}

#[test]
fn update_to_same_status_is_unchanged() {
    let (mut store, ids) = store_with(&["buy milk"]);
    let outcome = store.update_status(ids[0], Status::Pending);
    assert_eq!(outcome, UpdateOutcome::Unchanged);
    assert_eq!(store.find(Filter::Pending).len(), 1);
}

#[test]
fn deleted_todo_leaves_every_listing() {
    let (mut store, ids) = store_with(&["buy milk", "walk dog"]);
    store.update_status(ids[0], Status::Completed);
    assert!(store.delete(ids[0]));
    for filter in [Filter::All, Filter::Pending, Filter::Completed] {
        for t in store.find(filter) {
            assert_ne!(t.id, ids[0]);
        }
    }
    let all = store.find(Filter::All);
    assert_eq!(all.len(), 1);
    assert_eq!(all[0].id, ids[1]);
}

#[test]
fn delete_with_unknown_id_removes_nothing() {
    let (mut store, ids) = store_with(&["buy milk"]);
    let unknown = TodoId { value: ids[0].value + 1 };
    assert!(!store.delete(unknown));
    assert_eq!(store.find(Filter::All).len(), 1);
}

#[test]
fn update_never_touches_descriptions() {
    let (mut store, ids) = store_with(&["buy milk", "walk dog"]);
    store.update_status(ids[1], Status::Completed);
    let all = store.find(Filter::All);
    assert_eq!(all.len(), 2);
    assert_eq!(all[0].description, "buy milk");
    assert_eq!(all[1].description, "walk dog");
    assert_eq!(all[0].id, ids[0]);
    assert_eq!(all[1].id, ids[1]);
}

#[test]
fn descriptions_survive_other_deletions() {
    let (mut store, ids) = store_with(&["buy milk", "walk dog"]);
    assert!(store.delete(ids[0]));
    let all = store.find(Filter::All);
    assert_eq!(all.len(), 1);
    assert_eq!(all[0].description, "walk dog");
}

#[test]
fn ids_are_unique_and_never_reused() {
    let (mut store, ids) = store_with(&["a", "b"]);
    assert_ne!(ids[0], ids[1]);
    assert!(store.delete(ids[1]));
    let fresh = store.insert(Todo::new(String::from("c")));
    assert_ne!(fresh, ids[0]);
    assert_ne!(fresh, ids[1]);
}

#[test]
fn insertion_order_is_kept_in_listings() {
    let (store, ids) = store_with(&["a", "b", "c"]);
    let all = store.find(Filter::All);
    let listed: Vec<_> = all.iter().map(|t| t.id).collect();
    assert_eq!(listed, ids);
}

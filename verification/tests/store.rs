use editor_history::store::{CheckpointStore, StoreError};
use editor_history::types::{ChangeType, EditorCheckpoint};

fn checkpoint(id: &str, code: &str) -> EditorCheckpoint {
    EditorCheckpoint {
        id: id.to_string(),
        timestamp: 0,
        code: code.to_string(),
        diagnostics: Vec::new(),
        description: String::new(),
        change_type: ChangeType::User,
    }
}

fn filled(ids: &[&str]) -> CheckpointStore {
    let mut store = CheckpointStore::new();
    for id in ids {
        store.append(checkpoint(id, &format!("code of {}", id)));
    }
    store
}

fn ids(store: &CheckpointStore) -> Vec<String> {
    store.checkpoints().iter().map(|c| c.id.clone()).collect()
}

#[test]
fn new_store_is_empty() {
    let store = CheckpointStore::new();
    assert_eq!(store.len(), 0);
    assert_eq!(store.cursor(), 0);
    assert!(store.current().is_none());
    assert!(store.checkpoints().is_empty());
}

#[test]
fn append_moves_the_cursor_to_the_new_checkpoint() {
    let mut store = CheckpointStore::new();
    store.append(checkpoint("a", "1"));
    assert_eq!(store.len(), 1);
    assert_eq!(store.cursor(), 0);
    assert_eq!(store.current().unwrap().id, "a");
    store.append(checkpoint("b", "2"));
    assert_eq!(store.len(), 2);
    assert_eq!(store.cursor(), 1);
    assert_eq!(store.current().unwrap().id, "b");
    assert_eq!(store.current().unwrap().code, "2");
}

#[test]
fn append_drops_what_stands_after_the_cursor() {
    let mut store = filled(&["a", "b", "c", "d"]);
    store.move_cursor(-2).unwrap();
    store.append(checkpoint("e", "5"));
    assert_eq!(ids(&store), vec!["a", "b", "e"]);
    assert_eq!(store.cursor(), 2);
}

#[test]
fn move_cursor_steps_by_delta() {
    let mut store = filled(&["a", "b", "c", "d"]);
    assert_eq!(store.move_cursor(-1).unwrap().id, "c");
    assert_eq!(store.cursor(), 2);
    assert_eq!(store.move_cursor(-2).unwrap().id, "a");
    assert_eq!(store.cursor(), 0);
    assert_eq!(store.move_cursor(3).unwrap().id, "d");
    assert_eq!(store.cursor(), 3);
    assert_eq!(store.len(), 4);
}

#[test]
fn move_cursor_stops_at_the_ends() {
    let mut store = filled(&["a", "b", "c"]);
    assert_eq!(store.move_cursor(-10).unwrap().id, "a");
    assert_eq!(store.cursor(), 0);
    assert_eq!(store.move_cursor(10).unwrap().id, "c");
    assert_eq!(store.cursor(), 2);
    assert_eq!(store.move_cursor(i64::MIN).unwrap().id, "a");
    assert_eq!(store.move_cursor(i64::MAX).unwrap().id, "c");
}

#[test]
fn move_cursor_fails_when_the_cursor_would_stay() {
    let mut store = filled(&["a", "b", "c"]);
    assert_eq!(store.move_cursor(1).unwrap_err(), StoreError::OutOfRange);
    assert_eq!(store.move_cursor(0).unwrap_err(), StoreError::OutOfRange);
    assert_eq!(store.cursor(), 2);
    store.move_cursor(-2).unwrap();
    assert_eq!(store.move_cursor(-1).unwrap_err(), StoreError::OutOfRange);
    assert_eq!(store.move_cursor(i64::MIN).unwrap_err(), StoreError::OutOfRange);
    assert_eq!(store.cursor(), 0);
    assert_eq!(ids(&store), vec!["a", "b", "c"]);
}

#[test]
fn move_cursor_fails_in_an_empty_store() {
    let mut store = CheckpointStore::new();
    assert_eq!(store.move_cursor(-1).unwrap_err(), StoreError::OutOfRange);
    assert_eq!(store.move_cursor(0).unwrap_err(), StoreError::OutOfRange);
    assert_eq!(store.move_cursor(1).unwrap_err(), StoreError::OutOfRange);
    assert_eq!(store.cursor(), 0);
}

#[test]
fn jump_to_moves_the_cursor_and_keeps_everything() {
    let mut store = filled(&["a", "b", "c"]);
    assert_eq!(store.jump_to("a").unwrap().code, "code of a");
    assert_eq!(store.cursor(), 0);
    assert_eq!(store.jump_to("c").unwrap().id, "c");
    assert_eq!(store.cursor(), 2);
    assert_eq!(store.jump_to("b").unwrap().id, "b");
    assert_eq!(store.cursor(), 1);
    assert_eq!(ids(&store), vec!["a", "b", "c"]);
}

#[test]
fn jump_to_an_unknown_identifier_fails_and_changes_nothing() {
    let mut store = filled(&["a", "b", "c"]);
    assert_eq!(store.jump_to("z").unwrap_err(), StoreError::NotFound);
    assert_eq!(store.jump_to("").unwrap_err(), StoreError::NotFound);
    assert_eq!(store.jump_to("ab").unwrap_err(), StoreError::NotFound);
    assert_eq!(store.cursor(), 2);
    assert_eq!(ids(&store), vec!["a", "b", "c"]);
}

#[test]
fn jump_to_takes_the_first_of_equal_identifiers() {
    let mut store = CheckpointStore::new();
    store.append(checkpoint("a", "first"));
    store.append(checkpoint("b", "middle"));
    store.append(checkpoint("a", "second"));
    assert_eq!(store.jump_to("a").unwrap().code, "first");
    assert_eq!(store.cursor(), 0);
    assert_eq!(store.get("a").unwrap().code, "first");
}

#[test]
fn get_finds_by_identifier_without_moving() {
    let store = filled(&["a", "b", "c"]);
    assert_eq!(store.get("b").unwrap().code, "code of b");
    assert_eq!(store.get("a").unwrap().id, "a");
    assert_eq!(store.cursor(), 2);
    assert_eq!(store.get("d").unwrap_err(), StoreError::NotFound);
}

#[test]
fn get_in_an_empty_store_fails() {
    let store = CheckpointStore::new();
    assert_eq!(store.get("a").unwrap_err(), StoreError::NotFound);
}

#[test]
fn current_follows_the_cursor() {
    let mut store = filled(&["a", "b"]);
    assert_eq!(store.current().unwrap().id, "b");
    store.move_cursor(-1).unwrap();
    assert_eq!(store.current().unwrap().id, "a");
}

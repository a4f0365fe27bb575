use maunz::issue;
use maunz::state::State;
use maunz::time::Timestamp;

#[test]
fn track_issue_is_idempotent() {
    let mut store = State::new();
    let first = store.track_issue("clean_room.md");
    assert_eq!(first, issue::State::default());
    assert_eq!(store.issues.len(), 1);
    let second = store.track_issue("clean_room.md");
    assert_eq!(second, first);
    assert_eq!(store.issues.len(), 1);
    store.track_issue("water.md");
    assert_eq!(store.issues.len(), 2);
}

#[test]
fn update_issue_replaces_entry() {
    let mut store = State::new();
    store.track_issue("a");
    let s = issue::State { github_id: Some(7), last_open: Some(Timestamp::new(100, 0)), last_close: None };
    store.update_issue("a", s);
    assert_eq!(store.get("a"), Some(s));
    assert_eq!(store.issues.len(), 1);
    assert_eq!(store.get("b"), None);
    store.update_issue("b", s);
    assert_eq!(store.get("b"), Some(s));
    assert_eq!(store.track_issue("b"), s);
}

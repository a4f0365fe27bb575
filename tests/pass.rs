use chrono::TimeZone;
use maunz::issue::{Issue, RemoteIssue, Status};
use maunz::state::State;
use maunz::sync::{on_created, on_fetched, plan, Action};
use maunz::time::Timestamp;

fn at(y: i32, mo: u32, d: u32) -> Timestamp {
    Timestamp::new(chrono::Utc.with_ymd_and_hms(y, mo, d, 9, 0, 0).unwrap().timestamp(), 0)
}

#[test]
fn fresh_definition_is_created_and_opened() {
    let issue = Issue::parse(String::from("title: Water plants\nevery: 7d\n---\n")).unwrap();
    let mut store = State::new();
    let mut st = store.track_issue("water.md");
    assert_eq!(plan(&st), Action::Create);
    assert_eq!(issue.meta.title, "Water plants");
    let now = at(2024, 3, 1);
    on_created(&mut st, &RemoteIssue { number: 17, state: String::from("open") }, now).unwrap();
    store.update_issue("water.md", st);
    let saved = store.get("water.md").unwrap();
    assert_eq!(saved.github_id, Some(17));
    assert_eq!(saved.status(), Status::Open);
    assert_eq!(plan(&saved), Action::Fetch(17));
}

#[test]
fn closed_issue_past_interval_is_reopened() {
    let issue = Issue::parse(String::from("title: t\nevery: 7d\n---\n")).unwrap();
    let now = at(2024, 3, 20);
    let mut st = maunz::issue::State {
        github_id: Some(5),
        last_open: Some(Timestamp::new(now.secs - 20 * 86400, 0)),
        last_close: Some(Timestamp::new(now.secs - 10 * 86400, 0)),
    };
    let closed = RemoteIssue { number: 5, state: String::from("closed") };
    assert!(on_fetched(&issue, &mut st, &closed, now));
    st.mark_open_at(now);
    assert_eq!(st.status(), Status::Open);
    assert_eq!(st.last_open, Some(now));
}

#[test]
fn remote_state_is_followed() {
    let issue = Issue::parse(String::from("title: t\nevery: 7d\n---\n")).unwrap();
    let now = at(2024, 3, 20);
    let mut st = maunz::issue::State { github_id: Some(5), last_open: Some(at(2024, 3, 18)), last_close: None };
    let closed = RemoteIssue { number: 5, state: String::from("closed") };
    assert!(!on_fetched(&issue, &mut st, &closed, now));
    assert_eq!(st.last_close, Some(now));
    assert_eq!(st.status(), Status::Closed);
    let later = at(2024, 3, 21);
    let open = RemoteIssue { number: 5, state: String::from("open") };
    assert!(!on_fetched(&issue, &mut st, &open, later));
    assert_eq!(st.last_open, Some(later));
    assert_eq!(st.status(), Status::Open);
}

#[test]
fn created_with_bad_number_changes_nothing() {
    let mut st = maunz::issue::State::default();
    let err = on_created(&mut st, &RemoteIssue { number: -1, state: String::from("open") }, at(2024, 1, 1));
    assert!(err.is_err());
    assert_eq!(st, maunz::issue::State::default());
}

use chrono::TimeZone;
use maunz::issue::{from_files, id_from_filename, Issue, Meta, ParseError, RemoteIssue, State, Status};
use maunz::recurrence::{parse_interval, Interval, Unit};
use maunz::time::Timestamp;

fn at(y: i32, mo: u32, d: u32, h: u32, mi: u32, s: u32) -> Timestamp {
    let t = chrono::Utc.with_ymd_and_hms(y, mo, d, h, mi, s).unwrap();
    Timestamp::new(t.timestamp(), 0)
}

fn days_before(t: Timestamp, days: i64) -> Timestamp {
    Timestamp::new(t.secs - days * 86400, t.nanos)
}

fn meta(every: Interval, align: Option<bool>) -> Meta {
    Meta { title: "".to_string(), every, align }
}

#[test]
fn parse_meta() {
    let data = "
            title: yay!
            every: 10d
        ";
    let meta = Meta::parse(data).unwrap();
    assert_eq!(meta.title, "yay!");
    assert_eq!(meta.every, Interval { count: 10, unit: Unit::Day });
}

#[test]
fn next_open_unaligned() {
    let meta = meta(Interval { count: 10, unit: Unit::Day }, None);
    let t0 = at(2000, 1, 12, 0, 1, 1);
    assert_eq!(meta.next_open(&t0), at(2000, 1, 22, 0, 1, 1));
}

#[test]
fn next_open_aligned() {
    let meta = meta(Interval { count: 31, unit: Unit::Day }, Some(true));
    let t0 = at(2000, 1, 1, 0, 1, 1);
    assert_eq!(meta.next_open(&t0), at(2000, 2, 1, 0, 1, 1));
}

#[test]
fn parse_issue() {
    let data = String::from(
        "
            title: test title
            every: 10d
            ---
            - [ ] do things
            - [ ] do more
        ",
    );
    let issue = Issue::parse(data).unwrap();
    assert_eq!(issue.meta.title, "test title");
    println!("{}", issue.text);
}

#[test]
fn status() {
    let now = chrono::Utc::now();
    let now = Timestamp::new(now.timestamp(), now.timestamp_subsec_nanos());
    let mut state = State { last_open: None, last_close: None, github_id: None };
    assert_eq!(state.status(), Status::Closed);

    state.last_open = Some(now);
    assert_eq!(state.status(), Status::Open);

    state.last_close = Some(days_before(now, 5));
    assert_eq!(state.status(), Status::Open);

    state.last_open = Some(days_before(now, 10));
    assert_eq!(state.status(), Status::Closed);
}

#[test]
fn status_closed_only() {
    let state = State { github_id: None, last_open: None, last_close: Some(at(2020, 5, 1, 0, 0, 0)) };
    assert_eq!(state.status(), Status::Closed);
}

#[test]
fn next_open_adds_interval_without_alignment() {
    let t = Timestamp::new(1_000_000, 7);
    let m = meta(Interval { count: 2, unit: Unit::Week }, Some(false));
    assert_eq!(m.next_open(&t), Timestamp::new(1_000_000 + 14 * 86400, 7));
    let m = meta(Interval { count: 1, unit: Unit::Month }, None);
    assert_eq!(m.next_open(&t), Timestamp::new(1_000_000 + 31 * 86400, 7));
}

#[test]
fn next_open_aligned_keeps_time_of_day() {
    let m = meta(Interval { count: 10, unit: Unit::Day }, Some(true));
    let t0 = at(2021, 3, 20, 13, 45, 30);
    assert_eq!(m.next_open(&t0), at(2021, 3, 1, 13, 45, 30));
}

#[test]
fn parse_interval_units() {
    assert_eq!(parse_interval("7d"), Some(Interval { count: 7, unit: Unit::Day }));
    assert_eq!(parse_interval("3w"), Some(Interval { count: 3, unit: Unit::Week }));
    assert_eq!(parse_interval("12m"), Some(Interval { count: 12, unit: Unit::Month }));
    assert_eq!(parse_interval("10x"), None);
    assert_eq!(parse_interval("d"), None);
    assert_eq!(parse_interval("0d"), None);
    assert_eq!(parse_interval("-3d"), None);
    assert_eq!(parse_interval("1 d"), None);
    assert_eq!(parse_interval("99999999999999999999d"), None);
}

#[test]
fn parse_reports_each_error() {
    let e = Issue::parse(String::from("title: a\nevery: 7d\n")).unwrap_err();
    assert_eq!(e, ParseError::MalformedDocument);
    let e = Issue::parse(String::from("every: 7d\n---\nbody")).unwrap_err();
    assert_eq!(e, ParseError::MissingTitle);
    let e = Issue::parse(String::from("title: a\n---\nbody")).unwrap_err();
    assert_eq!(e, ParseError::MissingEvery);
    let e = Issue::parse(String::from("title: a\nevery: 7y\n---\nbody")).unwrap_err();
    assert_eq!(e, ParseError::InvalidRecurrence);
}

#[test]
fn parse_keeps_body_verbatim() {
    let issue = Issue::parse(String::from("title: Water plants\nevery: 7d\nalign: true\n---\n- [ ] water\n---\nmore")).unwrap();
    assert_eq!(issue.meta.title, "Water plants");
    assert_eq!(issue.meta.every, Interval { count: 7, unit: Unit::Day });
    assert_eq!(issue.meta.align, Some(true));
    assert_eq!(issue.text, "\n- [ ] water\n---\nmore");
}

#[test]
fn missing_separator_fails_whole_load() {
    let files = vec![
        (String::from("dir/a.md"), String::from("title: a\nevery: 1d\n---\nx")),
        (String::from("dir/b.md"), String::from("title: b\nevery: 1d\n")),
    ];
    assert_eq!(from_files(&files).unwrap_err(), ParseError::MalformedDocument);
}

#[test]
fn load_keys_by_file_name() {
    let files = vec![
        (String::from("dir/a.md"), String::from("title: a\nevery: 1d\n---\nx")),
        (String::from("/other/b.md"), String::from("title: b\nevery: 2w\n---\ny")),
    ];
    let repo = from_files(&files).unwrap();
    assert_eq!(repo.len(), 2);
    assert_eq!(repo[0].0, "a.md");
    assert_eq!(repo[1].0, "b.md");
    assert_eq!(repo[1].1.meta.title, "b");
}

#[test]
fn id_from_filename_cases() {
    assert_eq!(id_from_filename(&String::from("./example/clean_table.md")), "clean_table.md");
    assert_eq!(id_from_filename(&String::from("plain")), "plain");
    assert_eq!(id_from_filename(&String::from("a/..")), "no_id");
    assert_eq!(id_from_filename(&String::from("/")), "no_id");
}

#[test]
fn needs_open_without_close_is_false() {
    let issue = Issue::parse(String::from("title: t\nevery: 1d\n---\n")).unwrap();
    let state = State { github_id: Some(3), last_open: Some(at(1990, 1, 1, 0, 0, 0)), last_close: None };
    assert!(!issue.needs_open(&state));
}

#[test]
fn needs_open_after_interval() {
    let issue = Issue::parse(String::from("title: t\nevery: 7d\n---\n")).unwrap();
    let now = at(2024, 6, 20, 12, 0, 0);
    let mut state = State { github_id: Some(3), last_open: None, last_close: Some(days_before(now, 10)) };
    assert!(issue.needs_open_at(&state, now));
    state.last_close = Some(days_before(now, 5));
    assert!(!issue.needs_open_at(&state, now));
    state.last_close = Some(days_before(now, 7));
    assert!(!issue.needs_open_at(&state, now));
}

#[test]
fn mark_open_twice_is_once() {
    let t1 = at(2024, 1, 1, 0, 0, 0);
    let t2 = at(2024, 1, 2, 0, 0, 0);
    let mut s = State { github_id: None, last_open: None, last_close: None };
    s.mark_open_at(t1);
    let once = s;
    s.mark_open_at(t2);
    assert_eq!(s, once);
    assert_eq!(s.last_open, Some(t1));
    assert_eq!(s.status(), Status::Open);
}

#[test]
fn mark_closed_twice_is_once() {
    let t1 = at(2024, 1, 1, 0, 0, 0);
    let t2 = at(2024, 1, 2, 0, 0, 0);
    let t3 = at(2024, 1, 3, 0, 0, 0);
    let mut s = State { github_id: None, last_open: Some(t1), last_close: None };
    s.mark_closed_at(t2);
    let once = s;
    s.mark_closed_at(t3);
    assert_eq!(s, once);
    assert_eq!(s.last_close, Some(t2));
    assert_eq!(s.status(), Status::Closed);
}

#[test]
fn mark_open_uses_clock() {
    let mut s = State { github_id: None, last_open: None, last_close: Some(at(2000, 1, 1, 0, 0, 0)) };
    s.mark_open();
    assert_eq!(s.status(), Status::Open);
    s.mark_closed();
    assert_eq!(s.status(), Status::Closed);
}

#[test]
fn assign_rejects_negative_number() {
    let mut s = State { github_id: None, last_open: None, last_close: None };
    let err = s.assign_github_issue(&RemoteIssue { number: -4, state: String::from("open") });
    assert_eq!(err.unwrap_err().number, -4);
    assert_eq!(s.github_id, None);
    s.assign_github_issue(&RemoteIssue { number: 42, state: String::from("open") }).unwrap();
    assert_eq!(s.github_id, Some(42));
}

use crate::recurrence::{interval_of, interval_wf, parse_interval, span_secs, Interval};
use crate::time::{
    day_of_month, month_start, month_start_of, now, opt_before, opt_lt, second_of_day, ts_lt,
    Timestamp,
};
use vstd::prelude::*;

verus! {

/// Whether an issue is currently open or closed.
#[derive(Clone, Copy, Debug, PartialEq, Eq, Structural)]
pub enum Status {
    Open,
    Closed,
}

/// Why an issue definition could not be read.
#[derive(Clone, Copy, Debug, PartialEq, Eq, Structural)]
pub enum ParseError {
    /// The text holds no `---` separator.
    MalformedDocument,
    /// The metadata gives no `title` string.
    MissingTitle,
    /// The metadata gives no `every` string.
    MissingEvery,
    /// The `every` string is not a positive count followed by `d`, `w` or `m`.
    InvalidRecurrence,
}

/// The instant at which an issue closed at `from` is due again: `from` plus
/// the interval, moved back to the first of its month when `align` holds and
/// that instant can be represented.
pub open spec fn next_open_of(every: Interval, align: bool, from: Timestamp) -> Timestamp {
    let secs = from.secs + span_secs(every);
    let candidate = Timestamp { secs: secs as i64, nanos: from.nanos };
    if align {
        match month_start_of(secs, from.nanos as int) {
            Some(v) => Timestamp { secs: v as i64, nanos: from.nanos },
            None => candidate,
        }
    } else {
        candidate
    }
}

/// The metadata block of an issue definition.
#[derive(Clone, Debug)]
pub struct Meta {
    pub title: String,
    pub every: Interval,
    pub align: Option<bool>,
}

/// The string that a YAML document maps `key` to, as serde_yaml reads it.
pub uninterp spec fn yaml_str_field(doc: Seq<char>, key: Seq<char>) -> Option<Seq<char>>;

/// The boolean that a YAML document maps `key` to, as serde_yaml reads it.
pub uninterp spec fn yaml_bool_field(doc: Seq<char>, key: Seq<char>) -> Option<bool>;

/// Relies on serde_yaml's `from_str` into a `Value`, then `Value::get` and
/// `Value::as_str`: the string under `key` of the mapping that `doc` holds.
#[verifier::external_body]
fn yaml_str(doc: &str, key: &str) -> (r: Option<String>)
    ensures
        r is Some <==> yaml_str_field(doc@, key@) is Some,
        r matches Some(v) ==> yaml_str_field(doc@, key@) == Some(v@),
{
    let value: serde_yaml::Value = serde_yaml::from_str(doc).ok()?;
    value.get(key)?.as_str().map(|v| v.to_string())
}

/// Relies on serde_yaml's `from_str` into a `Value`, then `Value::get` and
/// `Value::as_bool`: the boolean under `key` of the mapping that `doc` holds.
#[verifier::external_body]
fn yaml_bool(doc: &str, key: &str) -> (r: Option<bool>)
    ensures
        r == yaml_bool_field(doc@, key@),
{
    let value: serde_yaml::Value = serde_yaml::from_str(doc).ok()?;
    value.get(key)?.as_bool()
}

/// What reading the metadata block `doc` gives: title, interval and alignment.
pub open spec fn meta_of(doc: Seq<char>) -> Result<(Seq<char>, Interval, Option<bool>), ParseError> {
    match yaml_str_field(doc, "title"@) {
        None => Err(ParseError::MissingTitle),
        Some(title) => match yaml_str_field(doc, "every"@) {
            None => Err(ParseError::MissingEvery),
            Some(every) => match interval_of(every) {
                None => Err(ParseError::InvalidRecurrence),
                Some(i) => Ok((title, i, yaml_bool_field(doc, "align"@))),
            },
        },
    }
}

impl Meta {
    pub open spec fn wf(&self) -> bool {
        interval_wf(self.every)
    }

    /// Whether due instants are moved back to the first of their month.
    pub open spec fn aligned(&self) -> bool {
        self.align == Some(true)
    }

    /// Reads the metadata block of an issue definition.
    pub fn parse(content: &str) -> (r: Result<Meta, ParseError>)
        ensures
            match (r, meta_of(content@)) {
                (Ok(m), Ok((title, every, align))) => m.title@ == title && m.every == every
                    && m.align == align,
                (Err(e), Err(f)) => e == f,
                _ => false,
            },
            r matches Ok(m) ==> m.wf(),
    {
        proof {
            reveal_strlit("title");
            reveal_strlit("every");
            reveal_strlit("align");
        }
        let title = match yaml_str(content, "title") {
            Some(t) => t,
            None => {
                return Err(ParseError::MissingTitle);
            },
        };
        let every_text = match yaml_str(content, "every") {
            Some(t) => t,
            None => {
                return Err(ParseError::MissingEvery);
            },
        };
        let every = match parse_interval(every_text.as_str()) {
            Some(i) => i,
            None => {
                return Err(ParseError::InvalidRecurrence);
            },
        };
        proof {
            assert(interval_of(every_text@) == Some(every));
        }
        let align = yaml_bool(content, "align");
        Ok(Meta { title, every, align })
    }

    /// The instant at which an issue closed at `from` is due to open again.
    pub fn next_open(&self, from: &Timestamp) -> (r: Timestamp)
        requires
            self.wf(),
            from.secs + span_secs(self.every) <= i64::MAX,
        ensures
            r == next_open_of(self.every, self.aligned(), *from),
            !self.aligned() ==> r.secs == from.secs + span_secs(self.every) && r.nanos
                == from.nanos,
            self.aligned() && month_start_of(from.secs + span_secs(self.every), from.nanos as int)
                is Some ==> {
                &&& day_of_month(r.secs as int) == 1
                &&& second_of_day(r.secs as int) == second_of_day(
                    from.secs + span_secs(self.every),
                )
                &&& r.nanos == from.nanos
                &&& r.secs <= from.secs + span_secs(self.every)
            },
    {
        let span = self.every.seconds();
        let candidate = Timestamp { secs: from.secs + span, nanos: from.nanos };
        if self.align == Some(true) {
            match month_start(candidate) {
                Some(v) => Timestamp { secs: v, nanos: from.nanos },
                None => candidate,
            }
        } else {
            candidate
        }
    }
}

/// Reply of the remote tracker about one issue: its number there and its
/// state (`"open"` or another word).
#[derive(Clone, Debug)]
pub struct RemoteIssue {
    pub number: i64,
    pub state: String,
}

/// A remote issue number that does not fit the stored width.
#[derive(Clone, Copy, Debug, PartialEq, Eq, Structural)]
pub struct ConversionError {
    pub number: i64,
}

/// The persisted lifecycle of one issue: its number on the remote tracker,
/// and when it was last opened and last closed.
#[derive(Clone, Copy, Debug, PartialEq, Eq, Structural)]
pub struct State {
    pub github_id: Option<u64>,
    pub last_open: Option<Timestamp>,
    pub last_close: Option<Timestamp>,
}

/// The lifecycle of an issue that was never seen before.
pub open spec fn fresh_state() -> State {
    State { github_id: None, last_open: None, last_close: None }
}

/// Open exactly when the last close comes before the last open, an absent
/// instant counting as earlier than any present one.
pub open spec fn status_of(s: State) -> Status {
    if opt_lt(s.last_close, s.last_open) {
        Status::Open
    } else {
        Status::Closed
    }
}

/// The state after marking `s` open at `now`.
pub open spec fn opened(s: State, now: Timestamp) -> State {
    if status_of(s) == Status::Closed {
        State { last_open: Some(now), ..s }
    } else {
        s
    }
}

/// The state after marking `s` closed at `now`.
pub open spec fn closed(s: State, now: Timestamp) -> State {
    if status_of(s) == Status::Open {
        State { last_close: Some(now), ..s }
    } else {
        s
    }
}

impl Default for State {
    fn default() -> (r: State)
        ensures
            r == fresh_state(),
    {
        State { github_id: None, last_open: None, last_close: None }
    }
}

/// Whether the two strings hold the same characters.
pub fn same_text(a: &str, b: &str) -> (r: bool)
    ensures
        r == (a@ == b@),
{
    let n = a.unicode_len();
    if n != b.unicode_len() {
        return false;
    }
    let mut i: usize = 0;
    while i < n
        invariant
            n == a@.len() == b@.len(),
            i <= n,
            a@.take(i as int) == b@.take(i as int),
        decreases n - i,
    {
        if a.get_char(i) != b.get_char(i) {
            assert(a@[i as int] != b@[i as int]);
            return false;
        }
        assert(a@.take(i as int + 1) =~= a@.take(i as int).push(a@[i as int]));
        assert(b@.take(i as int + 1) =~= b@.take(i as int).push(b@[i as int]));
        i = i + 1;
    }
    assert(a@.take(n as int) =~= a@);
    assert(b@.take(n as int) =~= b@);
    true
}

impl State {
    /// The status that the two instants give.
    pub fn status(&self) -> (r: Status)
        ensures
            r == status_of(*self),
            self.last_open is None ==> r == Status::Closed,
            r == Status::Open <==> (self.last_open is Some && (self.last_close is None || ts_lt(
                self.last_close->0,
                self.last_open->0,
            ))),
    {
        if opt_before(&self.last_close, &self.last_open) {
            Status::Open
        } else {
            Status::Closed
        }
    }

    /// Marks the issue open at `now`; nothing changes if it is open already.
    pub fn mark_open_at(&mut self, now: Timestamp)
        ensures
            *final(self) == opened(*old(self), now),
    {
        if self.status() == Status::Closed {
            self.last_open = Some(now);
        }
    }

    /// Marks the issue closed at `now`; nothing changes if it is closed already.
    pub fn mark_closed_at(&mut self, now: Timestamp)
        ensures
            *final(self) == closed(*old(self), now),
    {
        if self.status() == Status::Open {
            self.last_close = Some(now);
        }
    }

    /// Marks the issue open at the current time.
    pub fn mark_open(&mut self)
        ensures
            exists|t: Timestamp| *final(self) == opened(*old(self), t),
    {
        let t = now();
        self.mark_open_at(t);
    }

    /// Marks the issue closed at the current time.
    pub fn mark_closed(&mut self)
        ensures
            exists|t: Timestamp| *final(self) == closed(*old(self), t),
    {
        let t = now();
        self.mark_closed_at(t);
    }

    /// Records the number of the remote issue; fails, leaving the state as it
    /// was, where that number does not fit an unsigned integer.
    pub fn assign_github_issue(&mut self, issue: &RemoteIssue) -> (r: Result<(), ConversionError>)
        ensures
            issue.number < 0 ==> r == Err::<(), _>(ConversionError { number: issue.number })
                && *final(self) == *old(self),
            issue.number >= 0 ==> r is Ok && *final(self) == (State {
                github_id: Some(issue.number as u64),
                ..*old(self)
            }),
    {
        if issue.number < 0 {
            return Err(ConversionError { number: issue.number });
        }
        self.github_id = Some(issue.number as u64);
        Ok(())
    }
}

/// Whether the remote tracker reports the issue as open.
pub fn remote_is_open(issue: &RemoteIssue) -> (r: bool)
    ensures
        r == (issue.state@ == "open"@),
{
    proof {
        reveal_strlit("open");
    }
    same_text(issue.state.as_str(), "open")
}

/// A parsed issue definition: its metadata and the free text after the
/// separator.
#[derive(Clone, Debug)]
pub struct Issue {
    pub meta: Meta,
    pub text: String,
}

/// Three dashes start at position `i` of `s`.
pub open spec fn sep_at(s: Seq<char>, i: int) -> bool {
    0 <= i && i + 3 <= s.len() && s[i] == '-' && s[i + 1] == '-' && s[i + 2] == '-'
}

/// The first position at or after `i` where a `---` separator starts.
pub open spec fn first_sep_from(s: Seq<char>, i: int) -> Option<int>
    decreases s.len() - i,
    when 0 <= i
{
    if i + 3 > s.len() {
        None
    } else if sep_at(s, i) {
        Some(i)
    } else {
        first_sep_from(s, i + 1)
    }
}

/// What reading the definition `s` gives: title, interval, alignment and body.
pub open spec fn issue_of(s: Seq<char>) -> Result<
    (Seq<char>, Interval, Option<bool>, Seq<char>),
    ParseError,
> {
    match first_sep_from(s, 0) {
        None => Err(ParseError::MalformedDocument),
        Some(i) => match meta_of(s.take(i)) {
            Err(e) => Err(e),
            Ok((title, every, align)) => Ok((title, every, align, s.skip(i + 3))),
        },
    }
}

impl Issue {
    pub open spec fn wf(&self) -> bool {
        self.meta.wf()
    }

    /// `self` is what reading gave as `v`.
    pub open spec fn is_read_as(&self, v: (Seq<char>, Interval, Option<bool>, Seq<char>)) -> bool {
        &&& self.meta.title@ == v.0
        &&& self.meta.every == v.1
        &&& self.meta.align == v.2
        &&& self.text@ == v.3
    }

    /// Reads an issue definition: a metadata block, the separator `---`, and
    /// the body, kept as written.
    pub fn parse(content: String) -> (r: Result<Issue, ParseError>)
        ensures
            match (r, issue_of(content@)) {
                (Ok(issue), Ok(v)) => issue.is_read_as(v),
                (Err(e), Err(f)) => e == f,
                _ => false,
            },
            r matches Ok(issue) ==> issue.wf(),
    {
        let s = content.as_str();
        let n = s.unicode_len();
        let mut i: usize = 0;
        while n >= 3 && i <= n - 3
            invariant
                n == s@.len(),
                i <= n,
                s@ == content@,
                first_sep_from(s@, 0) == first_sep_from(s@, i as int),
            decreases n - i,
        {
            if s.get_char(i) == '-' && s.get_char(i + 1) == '-' && s.get_char(i + 2) == '-' {
                let meta = Meta::parse(s.substring_char(0, i))?;
                let text = s.substring_char(i + 3, n).to_owned();
                proof {
                    assert(s@.subrange(0, i as int) =~= s@.take(i as int));
                    assert(s@.subrange(i + 3, n as int) =~= s@.skip(i + 3));
                }
                return Ok(Issue { meta, text });
            }
            i = i + 1;
        }
        Err(ParseError::MalformedDocument)
    }

    /// Whether the issue is due to open again at `now`: it has been closed,
    /// and the next due instant after that close lies before `now`.
    pub fn needs_open_at(&self, state: &State, now: Timestamp) -> (r: bool)
        requires
            self.wf(),
        ensures
            r == needs_open_of(self.meta.every, self.meta.aligned(), *state, now),
            state.last_close is None ==> !r,
    {
        match state.last_close {
            None => false,
            Some(close) => {
                let span = self.meta.every.seconds();
                if close.secs > i64::MAX - span {
                    false
                } else {
                    let next = self.meta.next_open(&close);
                    next.before(&now)
                }
            },
        }
    }

    /// Whether the issue is due to open again at the current time.
    pub fn needs_open(&self, state: &State) -> (r: bool)
        requires
            self.wf(),
        ensures
            exists|t: Timestamp| r == needs_open_of(self.meta.every, self.meta.aligned(), *state, t),
            state.last_close is None ==> !r,
    {
        let t = now();
        self.needs_open_at(state, t)
    }
}

/// Whether an issue with interval `every` and lifecycle `s` is due at `now`.
/// A due instant beyond the largest representable one is never reached.
pub open spec fn needs_open_of(every: Interval, align: bool, s: State, now: Timestamp) -> bool {
    match s.last_close {
        None => false,
        Some(close) => close.secs + span_secs(every) <= i64::MAX && ts_lt(
            next_open_of(every, align, close),
            now,
        ),
    }
}

/// The last component of `path`, as `std::path::Path::file_name` gives it.
pub uninterp spec fn file_name_of(path: Seq<char>) -> Option<Seq<char>>;

/// Relies on `std::path::Path::file_name`: the last component of the path,
/// `None` where the path ends in `..` or has no component.
#[verifier::external_body]
fn file_name(path: &str) -> (r: Option<String>)
    ensures
        r is Some <==> file_name_of(path@) is Some,
        r matches Some(v) ==> file_name_of(path@) == Some(v@),
{
    std::path::Path::new(path).file_name().and_then(|n| n.to_str()).map(|n| n.to_string())
}

/// The id of the issue defined in the file at `path`: its file name, or
/// `no_id` where the path has none.
pub open spec fn id_of(path: Seq<char>) -> Seq<char> {
    match file_name_of(path) {
        Some(name) => name,
        None => "no_id"@,
    }
}

/// Derives the issue id from the path of its definition file.
pub fn id_from_filename(filename: &String) -> (r: String)
    ensures
        r@ == id_of(filename@),
{
    proof {
        reveal_strlit("no_id");
    }
    match file_name(filename.as_str()) {
        Some(name) => name,
        None => "no_id".to_owned(),
    }
}

/// Issue ids paired with the definitions read for them.
pub type Repo = Vec<(String, Issue)>;

/// Every definition among `files` reads without error.
pub open spec fn all_read(files: Seq<(String, String)>) -> bool {
    forall|k: int| 0 <= k < files.len() ==> (#[trigger] issue_of(files[k].1@)) is Ok
}

/// Reads every definition of `files`, each a path and the text of the file
/// there. The first definition that does not read fails the whole load.
pub fn from_files(files: &Vec<(String, String)>) -> (r: Result<Repo, ParseError>)
    ensures
        r is Ok <==> all_read(files@),
        r matches Err(e) ==> exists|k: int|
            0 <= k < files@.len() && all_read(files@.take(k)) && #[trigger] issue_of(files@[k].1@)
                == Err::<(Seq<char>, Interval, Option<bool>, Seq<char>), _>(e),
        r matches Ok(repo) ==> {
            &&& repo@.len() == files@.len()
            &&& forall|k: int|
                0 <= k < files@.len() ==> {
                    &&& (#[trigger] repo@[k]).0@ == id_of(files@[k].0@)
                    &&& repo@[k].1.is_read_as(issue_of(files@[k].1@)->Ok_0)
                    &&& repo@[k].1.wf()
                }
        },
{
    let mut repo: Repo = Vec::new();
    let mut i: usize = 0;
    while i < files.len()
        invariant
            i <= files@.len(),
            repo@.len() == i,
            all_read(files@.take(i as int)),
            forall|k: int|
                0 <= k < i ==> {
                    &&& (#[trigger] repo@[k]).0@ == id_of(files@[k].0@)
                    &&& repo@[k].1.is_read_as(issue_of(files@[k].1@)->Ok_0)
                    &&& repo@[k].1.wf()
                },
        decreases files@.len() - i,
    {
        let issue = match Issue::parse(files[i].1.clone()) {
            Ok(issue) => issue,
            Err(e) => {
                assert(issue_of(files@[i as int].1@) == Err::<(Seq<char>, Interval, Option<bool>, Seq<char>), _>(e));
                return Err(e);
            },
        };
        let id = id_from_filename(&files[i].0);
        repo.push((id, issue));
        proof {
            assert forall|k: int| 0 <= k < i + 1 implies (#[trigger] issue_of(
                files@.take(i + 1)[k].1@,
            )) is Ok by {
                if k < i {
                    assert(files@.take(i + 1)[k] == files@.take(i as int)[k]);
                }
            }
        }
        i = i + 1;
    }
    assert(files@.take(i as int) =~= files@);
    Ok(repo)
}

/// Marking an issue open twice is marking it open once: once open, a later
/// mark changes nothing. This needs the first mark to leave the issue open,
/// that is, a recorded close that lies before the instant of that mark.
pub proof fn lemma_mark_open_idempotent(s: State, first: Timestamp, second: Timestamp)
    requires
        status_of(s) == Status::Open || opt_lt(s.last_close, Some(first)),
    ensures
        opened(opened(s, first), second) == opened(s, first),
        status_of(opened(s, first)) == Status::Open,
{
}

/// Marking an issue closed twice is marking it closed once: once closed, a
/// later mark changes nothing. This needs the first mark to leave the issue
/// closed, that is, no recorded open after the instant of that mark.
pub proof fn lemma_mark_closed_idempotent(s: State, first: Timestamp, second: Timestamp)
    requires
        status_of(s) == Status::Closed || !opt_lt(Some(first), s.last_open),
    ensures
        closed(closed(s, first), second) == closed(s, first),
        status_of(closed(s, first)) == Status::Closed,
{
}

} // verus!

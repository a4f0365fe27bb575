use crate::issue::{
    closed, needs_open_of, opened, remote_is_open, ConversionError, Issue, RemoteIssue, State,
};
use crate::time::Timestamp;
use vstd::prelude::*;

verus! {

/// What a sync pass asks of the remote tracker for one issue.
#[derive(Clone, Copy, Debug, PartialEq, Eq, Structural)]
pub enum Action {
    /// The issue has no remote counterpart yet: create one.
    Create,
    /// Fetch the remote issue with this number to learn its state.
    Fetch(u64),
}

/// The request that a sync pass makes first for an issue in state `s`.
pub fn plan(s: &State) -> (r: Action)
    ensures
        s.github_id is None ==> r == Action::Create,
        s.github_id matches Some(n) ==> r == Action::Fetch(n),
{
    match s.github_id {
        None => Action::Create,
        Some(n) => Action::Fetch(n),
    }
}

/// The tracker created `remote` for the issue: record its number and mark the
/// issue open at `now`. Fails, leaving the state as it was, where the number
/// does not fit.
pub fn on_created(s: &mut State, remote: &RemoteIssue, now: Timestamp) -> (r: Result<
    (),
    ConversionError,
>)
    ensures
        remote.number < 0 ==> r == Err::<(), _>(ConversionError { number: remote.number })
            && *final(s) == *old(s),
        remote.number >= 0 ==> r is Ok && *final(s) == opened(
            State { github_id: Some(remote.number as u64), ..*old(s) },
            now,
        ),
{
    s.assign_github_issue(remote)?;
    s.mark_open_at(now);
    Ok(())
}

/// The tracker reported `remote` for the issue: follow its open or closed
/// state at `now`, and say whether the issue is due to be reopened.
pub fn on_fetched(issue: &Issue, s: &mut State, remote: &RemoteIssue, now: Timestamp) -> (r: bool)
    requires
        issue.wf(),
    ensures
        remote.state@ == "open"@ ==> *final(s) == opened(*old(s), now),
        remote.state@ != "open"@ ==> *final(s) == closed(*old(s), now),
        r == needs_open_of(issue.meta.every, issue.meta.aligned(), *final(s), now),
{
    if remote_is_open(remote) {
        s.mark_open_at(now);
    } else {
        s.mark_closed_at(now);
    }
    issue.needs_open_at(s, now)
}

} // verus!

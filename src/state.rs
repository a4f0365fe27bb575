use crate::issue::{fresh_state, same_text};
use crate::issue;
use crate::time::{now, Timestamp};
use vstd::prelude::*;

verus! {

/// The lifecycle recorded last for `id` among `entries`.
pub open spec fn entry_of(entries: Seq<(String, issue::State)>, id: Seq<char>) -> Option<
    issue::State,
>
    decreases entries.len(),
{
    if entries.len() == 0 {
        None
    } else if entries.last().0@ == id {
        Some(entries.last().1)
    } else {
        entry_of(entries.drop_last(), id)
    }
}

/// No id occurs twice among `entries`.
pub open spec fn keys_unique(entries: Seq<(String, issue::State)>) -> bool {
    forall|i: int, j: int|
        0 <= i < j < entries.len() ==> (#[trigger] entries[i]).0@ != (#[trigger] entries[j]).0@
}

proof fn lemma_entry_of(entries: Seq<(String, issue::State)>, id: Seq<char>)
    requires
        keys_unique(entries),
    ensures
        entry_of(entries, id) is None <==> forall|j: int|
            0 <= j < entries.len() ==> (#[trigger] entries[j]).0@ != id,
        forall|j: int|
            0 <= j < entries.len() && (#[trigger] entries[j]).0@ == id ==> entry_of(entries, id)
                == Some(entries[j].1),
    decreases entries.len(),
{
    if entries.len() > 0 {
        let rest = entries.drop_last();
        assert(keys_unique(rest)) by {
            assert forall|i: int, j: int| 0 <= i < j < rest.len() implies (#[trigger] rest[i]).0@
                != (#[trigger] rest[j]).0@ by {
                assert(rest[i] == entries[i] && rest[j] == entries[j]);
            }
        }
        lemma_entry_of(rest, id);
        assert forall|j: int| 0 <= j < entries.len() && (#[trigger] entries[j]).0@ == id implies entry_of(entries, id) == Some(entries[j].1) by {
            if j < entries.len() - 1 {
                assert(rest[j] == entries[j]);
                assert(entries[j].0@ != entries[entries.len() - 1].0@);
            }
        }
        if entry_of(entries, id) is None {
            assert forall|j: int| 0 <= j < entries.len() implies (#[trigger] entries[j]).0@ != id by {
                if j < entries.len() - 1 {
                    assert(rest[j] == entries[j]);
                }
            }
        }
    }
}

/// The whole store: the lifecycle of each issue id, and when a sync pass last
/// ran.
#[derive(Debug)]
pub struct State {
    pub issues: Vec<(String, issue::State)>,
    pub last_run: Timestamp,
}

impl State {
    /// Each issue id has one entry at most.
    pub open spec fn wf(&self) -> bool {
        keys_unique(self.issues@)
    }

    /// The lifecycle of each tracked issue, by id.
    pub open spec fn view(&self) -> Map<Seq<char>, issue::State> {
        Map::new(
            |id: Seq<char>| entry_of(self.issues@, id) is Some,
            |id: Seq<char>| entry_of(self.issues@, id)->0,
        )
    }

    /// A store that tracks no issue, stamped with the current time.
    pub fn new() -> (r: State)
        ensures
            r.wf(),
            r.view() == Map::<Seq<char>, issue::State>::empty(),
    {
        let r = State { issues: Vec::new(), last_run: now() };
        assert(r.view() =~= Map::<Seq<char>, issue::State>::empty());
        r
    }

    /// Position of the entry for `id`, if there is one.
    fn position(&self, id: &str) -> (r: Option<usize>)
        requires
            self.wf(),
        ensures
            r is None ==> !self.view().contains_key(id@),
            r matches Some(j) ==> j < self.issues@.len() && self.issues@[j as int].0@ == id@
                && self.view().contains_key(id@) && self.view()[id@] == self.issues@[j as int].1,
    {
        proof {
            lemma_entry_of(self.issues@, id@);
        }
        let mut j: usize = 0;
        while j < self.issues.len()
            invariant
                self.wf(),
                j <= self.issues@.len(),
                forall|k: int| 0 <= k < j ==> (#[trigger] self.issues@[k]).0@ != id@,
            decreases self.issues@.len() - j,
        {
            if same_text(self.issues[j].0.as_str(), id) {
                proof {
                    lemma_entry_of(self.issues@, id@);
                }
                return Some(j);
            }
            j = j + 1;
        }
        None
    }

    /// The lifecycle recorded for `id`, if any.
    pub fn get(&self, id: &str) -> (r: Option<issue::State>)
        requires
            self.wf(),
        ensures
            r is Some <==> self.view().contains_key(id@),
            r matches Some(s) ==> s == self.view()[id@],
    {
        match self.position(id) {
            Some(j) => Some(self.issues[j].1),
            None => None,
        }
    }

    /// Returns the lifecycle of `id`, tracking `id` first with a fresh one if
    /// it is not tracked yet. Calling it again changes nothing.
    pub fn track_issue(&mut self, id: &str) -> (r: issue::State)
        requires
            old(self).wf(),
        ensures
            final(self).wf(),
            final(self).last_run == old(self).last_run,
            old(self).view().contains_key(id@) ==> final(self).view() == old(self).view(),
            !old(self).view().contains_key(id@) ==> final(self).view() == old(self).view().insert(
                id@,
                fresh_state(),
            ),
            final(self).view().contains_key(id@),
            r == final(self).view()[id@],
    {
        match self.position(id) {
            Some(j) => self.issues[j].1,
            None => {
                let fresh = issue::State::default();
                let ghost before = self.issues@;
                self.issues.push((id.to_owned(), fresh));
                proof {
                    let after = self.issues@;
                    assert(after.drop_last() =~= before);
                    lemma_entry_of(before, id@);
                    assert forall|a: int, b: int| 0 <= a < b < after.len() implies (#[trigger] after[a]).0@
                        != (#[trigger] after[b]).0@ by {
                        assert(after[a] == before[a]);
                        if b < before.len() {
                            assert(after[b] == before[b]);
                        }
                    }
                    assert forall|k: Seq<char>| #[trigger] entry_of(after, k) == (if k == id@ {
                        Some(fresh_state())
                    } else {
                        entry_of(before, k)
                    }) by {}
                    assert(self.view() =~= old(self).view().insert(id@, fresh_state()));
                }
                fresh
            },
        }
    }

    /// Records `value` as the lifecycle of `id`, tracking `id` if it is not
    /// tracked yet.
    pub fn update_issue(&mut self, id: &str, value: issue::State)
        requires
            old(self).wf(),
        ensures
            final(self).wf(),
            final(self).last_run == old(self).last_run,
            final(self).view() == old(self).view().insert(id@, value),
    {
        match self.position(id) {
            Some(j) => {
                let ghost before = self.issues@;
                self.issues[j].1 = value;
                proof {
                    let after = self.issues@;
                    assert forall|a: int, b: int| 0 <= a < b < after.len() implies (#[trigger] after[a]).0@
                        != (#[trigger] after[b]).0@ by {
                        assert(after[a].0 == before[a].0 && after[b].0 == before[b].0);
                    }
                    assert forall|k: Seq<char>| #[trigger] entry_of(after, k) == (if k == id@ {
                        Some(value)
                    } else {
                        entry_of(before, k)
                    }) by {
                        lemma_entry_of(before, k);
                        lemma_entry_of(after, k);
                        if k != id@ {
                            if entry_of(before, k) is None {
                                assert forall|i: int| 0 <= i < after.len() implies (#[trigger] after[i]).0@ != k by {
                                    assert(after[i].0 == before[i].0);
                                }
                            } else {
                                let i = choose|i: int| 0 <= i < before.len() && (#[trigger] before[i]).0@ == k;
                                assert(after[i] == before[i]);
                            }
                        }
                    }
                    assert(self.view() =~= old(self).view().insert(id@, value));
                }
            },
            None => {
                let ghost before = self.issues@;
                self.issues.push((id.to_owned(), value));
                proof {
                    let after = self.issues@;
                    assert(after.drop_last() =~= before);
                    lemma_entry_of(before, id@);
                    assert forall|a: int, b: int| 0 <= a < b < after.len() implies (#[trigger] after[a]).0@
                        != (#[trigger] after[b]).0@ by {
                        assert(after[a] == before[a]);
                        if b < before.len() {
                            assert(after[b] == before[b]);
                        }
                    }
                    assert forall|k: Seq<char>| #[trigger] entry_of(after, k) == (if k == id@ {
                        Some(value)
                    } else {
                        entry_of(before, k)
                    }) by {}
                    assert(self.view() =~= old(self).view().insert(id@, value));
                }
            },
        }
    }
}

} // verus!

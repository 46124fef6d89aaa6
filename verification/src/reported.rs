//! Report a lasting condition once, rather than on every pass that finds it again.

use crate::competition::Uuid;
use vstd::prelude::*;

verus! {

/// One thing that was reported.
#[derive(Debug)]
pub struct Said {
    pub topic: String,
    pub subject: Uuid,
    pub what: String,
}

/// What was last reported about each subject, per topic.
#[derive(Debug)]
pub struct Reported {
    last: Vec<Said>,
}

/// The first report about `subject` under `topic`, from the `from`th on.
pub open spec fn last_said(
    last: Seq<Said>,
    from: int,
    topic: Seq<char>,
    subject: Uuid,
) -> Option<Seq<char>>
    decreases last.len() - from,
{
    if from < 0 || from >= last.len() {
        None
    } else if last[from].topic@ == topic && last[from].subject == subject {
        Some(last[from].what@)
    } else {
        last_said(last, from + 1, topic, subject)
    }
}

impl Default for Reported {
    fn default() -> (reported: Self)
        ensures
            reported.wf(),
            forall|topic: Seq<char>, subject: Uuid|
                #[trigger] reported.said(topic, subject) is None,
    {
        Reported { last: Vec::new() }
    }
}

impl Reported {
    /// Nothing is reported twice under one topic about one subject.
    pub closed spec fn wf(self) -> bool {
        forall|i: int, j: int|
            0 <= i < j < self.last@.len() ==> !(#[trigger] self.last@[i].topic@
                == #[trigger] self.last@[j].topic@ && self.last@[i].subject
                == self.last@[j].subject)
    }

    /// What was last reported about `subject` under `topic`.
    pub closed spec fn said(self, topic: Seq<char>, subject: Uuid) -> Option<Seq<char>> {
        last_said(self.last@, 0, topic, subject)
    }

    /// Where the report about `subject` under `topic` stands.
    fn find(&self, topic: &str, subject: Uuid) -> (found: Option<usize>)
        ensures
            match found {
                Some(index) => index < self.last@.len() && self.last@[index as int].topic@ == topic@
                    && self.last@[index as int].subject == subject,
                None => forall|i: int|
                    0 <= i < self.last@.len() ==> !((#[trigger] self.last@[i]).topic@ == topic@
                        && self.last@[i].subject == subject),
            },
    {
        let mut i: usize = 0;
        let wanted = topic.to_owned();
        while i < self.last.len()
            invariant
                i <= self.last@.len(),
                wanted@ == topic@,
                forall|j: int|
                    0 <= j < i ==> !((#[trigger] self.last@[j]).topic@ == topic@
                        && self.last@[j].subject == subject),
            decreases self.last@.len() - i,
        {
            if self.last[i].topic == wanted && self.last[i].subject == subject {
                return Some(i);
            }
            i = i + 1;
        }
        None
    }

    /// Whether `what` is news about `subject` under `topic`: nothing was reported yet, or the last
    /// report said something else. It counts as reported from then on.
    pub fn is_new(&mut self, topic: &str, subject: Uuid, what: &str) -> (news: bool)
        requires
            old(self).wf(),
        ensures
            final(self).wf(),
            news == (old(self).said(topic@, subject) != Some(what@)),
            final(self).said(topic@, subject) == Some(what@),
            forall|t: Seq<char>, s: Uuid|
                !(t == topic@ && s == subject) ==> #[trigger] final(self).said(t, s)
                    == old(self).said(t, s),
    {
        let what = what.to_owned();
        match self.find(topic, subject) {
            Some(index) => {
                proof {
                    said_at(self.last@, 0, index as int, topic@, subject);
                }
                if self.last[index].what == what {
                    return false;
                }
                let said = Said { topic: topic.to_owned(), subject, what };
                self.last.set(index, said);
                proof {
                    said_at(self.last@, 0, index as int, topic@, subject);
                    assert forall|t: Seq<char>, s: Uuid|
                        !(t == topic@ && s == subject) implies #[trigger] self.said(t, s)
                        == old(self).said(t, s) by {
                        others_unchanged(old(self).last@, self.last@, 0, index as int, t, s);
                    }
                }
            },
            None => {
                let said = Said { topic: topic.to_owned(), subject, what };
                proof {
                    said_nowhere(self.last@, 0, topic@, subject);
                }
                self.last.push(said);
                proof {
                    said_at(
                        self.last@,
                        0,
                        self.last@.len() - 1,
                        topic@,
                        subject,
                    );
                    assert forall|t: Seq<char>, s: Uuid|
                        !(t == topic@ && s == subject) implies #[trigger] self.said(t, s)
                        == old(self).said(t, s) by {
                        others_unchanged_by_push(old(self).last@, self.last@, 0, t, s);
                    }
                }
            },
        }
        true
    }

    /// Forget `subject` under `topic` once its condition clears, so that a recurrence is reported.
    pub fn clear(&mut self, topic: &str, subject: Uuid)
        requires
            old(self).wf(),
        ensures
            final(self).wf(),
            final(self).said(topic@, subject) is None,
            forall|t: Seq<char>, s: Uuid|
                !(t == topic@ && s == subject) ==> #[trigger] final(self).said(t, s)
                    == old(self).said(t, s),
    {
        match self.find(topic, subject) {
            Some(index) => {
                self.last.remove(index);
                proof {
                    assert(self.last@ == old(self).last@.remove(index as int));
                    assert forall|i: int| 0 <= i < self.last@.len() implies !((
                    #[trigger] self.last@[i]).topic@ == topic@ && self.last@[i].subject
                        == subject) by {
                        let before = if i < index {
                            i
                        } else {
                            i + 1
                        };
                        assert(self.last@[i] == old(self).last@[before]);
                        assert(old(self).last@[index as int].topic@ == topic@);
                    }
                    said_nowhere(self.last@, 0, topic@, subject);
                    assert forall|t: Seq<char>, s: Uuid|
                        !(t == topic@ && s == subject) implies #[trigger] self.said(t, s)
                        == old(self).said(t, s) by {
                        others_unchanged_by_remove(old(self).last@, 0, index as int, t, s);
                    }
                }
            },
            None => {
                proof {
                    said_nowhere(self.last@, 0, topic@, subject);
                }
            },
        }
    }
}

/// A report that is the first of its kind from `from` on is the last said.
proof fn said_at(last: Seq<Said>, from: int, at: int, topic: Seq<char>, subject: Uuid)
    requires
        0 <= from <= at < last.len(),
        last[at].topic@ == topic,
        last[at].subject == subject,
        forall|i: int|
            from <= i < at ==> !((#[trigger] last[i]).topic@ == topic && last[i].subject
                == subject),
    ensures
        last_said(last, from, topic, subject) == Some(last[at].what@),
    decreases at - from,
{
    if from < at {
        said_at(last, from + 1, at, topic, subject);
    }
}

/// Where no report fits, nothing was said.
proof fn said_nowhere(last: Seq<Said>, from: int, topic: Seq<char>, subject: Uuid)
    requires
        0 <= from <= last.len(),
        forall|i: int|
            from <= i < last.len() ==> !((#[trigger] last[i]).topic@ == topic && last[i].subject
                == subject),
    ensures
        last_said(last, from, topic, subject) is None,
    decreases last.len() - from,
{
    if from < last.len() {
        said_nowhere(last, from + 1, topic, subject);
    }
}

/// Replacing the report at `at` by another on the same subject leaves the rest as it was.
proof fn others_unchanged(
    before: Seq<Said>,
    after: Seq<Said>,
    from: int,
    at: int,
    topic: Seq<char>,
    subject: Uuid,
)
    requires
        0 <= from <= before.len(),
        0 <= at < before.len(),
        after == before.update(at, after[at]),
        after[at].topic@ == before[at].topic@,
        after[at].subject == before[at].subject,
        !(before[at].topic@ == topic && before[at].subject == subject),
    ensures
        last_said(after, from, topic, subject) == last_said(before, from, topic, subject),
    decreases before.len() - from,
{
    if from < before.len() {
        others_unchanged(before, after, from + 1, at, topic, subject);
    }
}

/// Adding a report on another subject leaves the rest as it was.
proof fn others_unchanged_by_push(
    before: Seq<Said>,
    after: Seq<Said>,
    from: int,
    topic: Seq<char>,
    subject: Uuid,
)
    requires
        0 <= from <= before.len(),
        after.len() == before.len() + 1,
        after == before.push(after.last()),
        !(after.last().topic@ == topic && after.last().subject == subject),
    ensures
        last_said(after, from, topic, subject) == last_said(before, from, topic, subject),
    decreases before.len() - from,
{
    if from < before.len() {
        others_unchanged_by_push(before, after, from + 1, topic, subject);
    } else {
        reveal_with_fuel(last_said, 2);
    }
}

/// Removing a report on another subject leaves the rest as it was.
proof fn others_unchanged_by_remove(
    before: Seq<Said>,
    from: int,
    at: int,
    topic: Seq<char>,
    subject: Uuid,
)
    requires
        0 <= from <= before.len(),
        0 <= at < before.len(),
        !(before[at].topic@ == topic && before[at].subject == subject),
    ensures
        from <= at ==> last_said(before.remove(at), from, topic, subject) == last_said(
            before,
            from,
            topic,
            subject,
        ),
        from > at ==> last_said(before.remove(at), from - 1, topic, subject) == last_said(
            before,
            from,
            topic,
            subject,
        ),
    decreases before.len() - from,
{
    if from < before.len() {
        others_unchanged_by_remove(before, from + 1, at, topic, subject);
    }
}

} // verus!

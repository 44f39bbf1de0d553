//! A registry of backoff policies by name.

use crate::backoff::BackoffPolicy;
use vstd::prelude::*;
use vstd::string::StringExecFns;

verus! {

/// A registered policy: its name and the policy.
pub type Entry = (Seq<char>, BackoffPolicy);

/// No two entries have the same name.
pub open spec fn distinct_names(entries: Seq<Entry>) -> bool {
    forall|i: int, j: int|
        0 <= i < j < entries.len() ==> (#[trigger] entries[i]).0 != (#[trigger] entries[j]).0
}

/// Whether an entry is named `name`.
pub open spec fn holds(entries: Seq<Entry>, name: Seq<char>) -> bool {
    exists|i: int| 0 <= i < entries.len() && (#[trigger] entries[i]).0 == name
}

/// The place of an entry named `name`.
pub open spec fn index_of(entries: Seq<Entry>, name: Seq<char>) -> int {
    choose|i: int| 0 <= i < entries.len() && (#[trigger] entries[i]).0 == name
}

/// The policy registered under `name`, if there is one.
pub open spec fn lookup(entries: Seq<Entry>, name: Seq<char>) -> Option<BackoffPolicy> {
    if holds(entries, name) {
        Some(entries[index_of(entries, name)].1)
    } else {
        None
    }
}

/// The entries after `policy` was registered under `name`: in the place of
/// the entry of that name, or at the end where there was none.
pub open spec fn registered(entries: Seq<Entry>, name: Seq<char>, policy: BackoffPolicy) -> Seq<
    Entry,
> {
    if holds(entries, name) {
        entries.update(index_of(entries, name), (name, policy))
    } else {
        entries.push((name, policy))
    }
}

/// The entries after the one named `name` was removed: the last entry takes
/// its place.
pub open spec fn removed(entries: Seq<Entry>, name: Seq<char>) -> Seq<Entry> {
    if holds(entries, name) {
        entries.update(index_of(entries, name), entries.last()).drop_last()
    } else {
        entries
    }
}

/// Among distinct names, the entry named `name` stands at one place only.
pub proof fn lemma_index_of(entries: Seq<Entry>, name: Seq<char>, i: int)
    requires
        distinct_names(entries),
        0 <= i < entries.len(),
        entries[i].0 == name,
    ensures
        holds(entries, name),
        index_of(entries, name) == i,
        lookup(entries, name) == Some(entries[i].1),
{
    let j = index_of(entries, name);
    if j < i {
        assert(entries[j].0 != entries[i].0);
    } else if i < j {
        assert(entries[i].0 != entries[j].0);
    }
}

/// A policy that was registered is found under its name, the names stay
/// distinct, and every other name leads to what it led to before.
pub proof fn lemma_registered(entries: Seq<Entry>, name: Seq<char>, policy: BackoffPolicy)
    requires
        distinct_names(entries),
    ensures
        distinct_names(registered(entries, name, policy)),
        lookup(registered(entries, name, policy), name) == Some(policy),
        forall|other: Seq<char>|
            other != name ==> lookup(registered(entries, name, policy), other) == lookup(
                entries,
                other,
            ),
{
    let after = registered(entries, name, policy);
    let at = if holds(entries, name) {
        index_of(entries, name)
    } else {
        entries.len() as int
    };
    assert(after.len() > at && after[at] == (name, policy));
    assert forall|i: int| 0 <= i < after.len() && i != at implies after[i] == entries[i]
        && after[i].0 != name by {
        if holds(entries, name) {
            lemma_index_of(entries, name, at);
            if i < at {
                assert(entries[i].0 != entries[at].0);
            } else {
                assert(entries[at].0 != entries[i].0);
            }
        } else {
            assert(entries[i].0 != name);
        }
    }
    assert(distinct_names(after)) by {
        assert forall|i: int, j: int| 0 <= i < j < after.len() implies (#[trigger] after[i]).0 != (
        #[trigger] after[j]).0 by {
            if i != at && j != at {
                assert(entries[i].0 != entries[j].0);
            }
        }
    }
    lemma_index_of(after, name, at);
    assert forall|other: Seq<char>| other != name implies lookup(after, other) == lookup(
        entries,
        other,
    ) by {
        if holds(entries, other) {
            let k = index_of(entries, other);
            assert(k != at);
            assert(after[k] == entries[k]);
            lemma_index_of(after, other, k);
        } else if holds(after, other) {
            let k = index_of(after, other);
            assert(k != at);
            assert(entries[k].0 == other);
        }
    }
}

/// A policy that was removed is no longer found, the names stay distinct,
/// and every other name leads to what it led to before.
pub proof fn lemma_removed(entries: Seq<Entry>, name: Seq<char>)
    requires
        distinct_names(entries),
    ensures
        distinct_names(removed(entries, name)),
        lookup(removed(entries, name), name) is None,
        forall|other: Seq<char>|
            other != name ==> lookup(removed(entries, name), other) == lookup(entries, other),
{
    let after = removed(entries, name);
    if holds(entries, name) {
        let at = index_of(entries, name);
        let last = entries.len() - 1;
        lemma_index_of(entries, name, at);
        assert forall|i: int| 0 <= i < after.len() implies #[trigger] after[i] == (if i == at {
            entries[last]
        } else {
            entries[i]
        }) by {}
        assert forall|i: int| 0 <= i < after.len() implies (#[trigger] after[i]).0 != name by {
            if i == at {
                assert(entries[at].0 != entries[last].0);
            } else if i < at {
                assert(entries[i].0 != entries[at].0);
            } else {
                assert(entries[at].0 != entries[i].0);
            }
        }
        assert(distinct_names(after)) by {
            assert forall|i: int, j: int| 0 <= i < j < after.len() implies (#[trigger] after[i]).0
                != (#[trigger] after[j]).0 by {
                if i == at {
                    assert(entries[j].0 != entries[last].0);
                } else if j == at {
                    assert(entries[i].0 != entries[last].0);
                } else {
                    assert(entries[i].0 != entries[j].0);
                }
            }
        }
        assert forall|other: Seq<char>| other != name implies lookup(after, other) == lookup(
            entries,
            other,
        ) by {
            if holds(entries, other) {
                let k = index_of(entries, other);
                assert(k != at);
                if k == last {
                    assert(after[at] == entries[last]);
                    lemma_index_of(after, other, at);
                } else {
                    assert(after[k] == entries[k]);
                    lemma_index_of(after, other, k);
                }
            } else if holds(after, other) {
                let k = index_of(after, other);
                if k == at {
                    assert(entries[last].0 == other);
                } else {
                    assert(entries[k].0 == other);
                }
            }
        }
    }
}

/// Backoff policies by name. A name leads to at most one policy.
#[derive(Debug)]
pub struct PolicyRegistry {
    entries: Vec<(String, BackoffPolicy)>,
}

impl View for PolicyRegistry {
    type V = Seq<Entry>;

    closed spec fn view(&self) -> Seq<Entry> {
        Seq::new(self.entries@.len(), |i: int| (self.entries@[i].0@, self.entries@[i].1))
    }
}

impl PolicyRegistry {
    /// The registry is well formed: no two entries have the same name.
    pub open spec fn wf(&self) -> bool {
        distinct_names(self@)
    }

    /// A registry without entries.
    pub fn new() -> (r: Self)
        ensures
            r.wf(),
            r@ == Seq::<Entry>::empty(),
    {
        let r = PolicyRegistry { entries: Vec::new() };
        assert(r@ =~= Seq::<Entry>::empty());
        r
    }

    /// The place of the entry named `name`.
    fn position(&self, name: &String) -> (r: Option<usize>)
        requires
            self.wf(),
        ensures
            match r {
                Some(i) => i < self@.len() && self@[i as int].0 == name@ && index_of(self@, name@)
                    == i && holds(self@, name@),
                None => !holds(self@, name@),
            },
    {
        let n: usize = self.entries.len();
        let mut i: usize = 0;
        while i < n
            invariant
                n == self.entries.len(),
                n == self@.len(),
                0 <= i <= n,
                distinct_names(self@),
                forall|j: int| 0 <= j < i ==> (#[trigger] self@[j]).0 != name@,
            decreases n - i,
        {
            if self.entries[i].0 == *name {
                proof {
                    lemma_index_of(self@, name@, i as int);
                }
                return Some(i);
            }
            i = i + 1;
        }
        None
    }

    /// Registers `policy` under `name` and gives back the policy that the
    /// name led to before.
    pub fn register(&mut self, name: &str, policy: BackoffPolicy) -> (previous: Option<
        BackoffPolicy,
    >)
        requires
            old(self).wf(),
        ensures
            final(self).wf(),
            previous == lookup(old(self)@, name@),
            final(self)@ == registered(old(self)@, name@, policy),
            lookup(final(self)@, name@) == Some(policy),
    {
        let key: String = String::from_str(name);
        proof {
            lemma_registered(self@, name@, policy);
        }
        let ghost before = self@;
        match self.position(&key) {
            Some(i) => {
                let previous: BackoffPolicy = self.entries[i].1;
                self.entries.set(i, (key, policy));
                assert(self@ =~= before.update(i as int, (name@, policy)));
                Some(previous)
            },
            None => {
                self.entries.push((key, policy));
                assert(self@ =~= before.push((name@, policy)));
                None
            },
        }
    }

    /// The policy registered under `name`.
    pub fn get(&self, name: &str) -> (r: Option<BackoffPolicy>)
        requires
            self.wf(),
        ensures
            r == lookup(self@, name@),
    {
        let key: String = String::from_str(name);
        match self.position(&key) {
            Some(i) => Some(self.entries[i].1),
            None => None,
        }
    }

    /// Removes the policy registered under `name` and gives it back.
    pub fn remove(&mut self, name: &str) -> (r: Option<BackoffPolicy>)
        requires
            old(self).wf(),
        ensures
            final(self).wf(),
            r == lookup(old(self)@, name@),
            final(self)@ == removed(old(self)@, name@),
            lookup(final(self)@, name@) is None,
    {
        let key: String = String::from_str(name);
        proof {
            lemma_removed(self@, name@);
        }
        let ghost before = self@;
        match self.position(&key) {
            Some(i) => {
                let entry: (String, BackoffPolicy) = self.entries.swap_remove(i);
                assert(self@ =~= before.update(i as int, before.last()).drop_last());
                Some(entry.1)
            },
            None => None,
        }
    }

    /// All entries, each with its name, in the order in which they are held.
    pub fn all(&self) -> (r: Vec<(String, BackoffPolicy)>)
        ensures
            r@.len() == self@.len(),
            forall|i: int|
                0 <= i < r@.len() ==> (#[trigger] r@[i]).0@ == self@[i].0 && r@[i].1 == self@[i].1,
    {
        let n: usize = self.entries.len();
        let mut out: Vec<(String, BackoffPolicy)> = Vec::new();
        let mut i: usize = 0;
        while i < n
            invariant
                n == self.entries.len(),
                n == self@.len(),
                0 <= i <= n,
                out@.len() == i,
                forall|j: int|
                    0 <= j < i ==> (#[trigger] out@[j]).0@ == self@[j].0 && out@[j].1 == self@[j].1,
            decreases n - i,
        {
            let name: String = self.entries[i].0.clone();
            let policy: BackoffPolicy = self.entries[i].1;
            out.push((name, policy));
            i = i + 1;
        }
        out
    }

    /// Removes every entry.
    pub fn clear(&mut self)
        ensures
            final(self).wf(),
            final(self)@ == Seq::<Entry>::empty(),
    {
        self.entries.clear();
        assert(self@ =~= Seq::<Entry>::empty());
    }
}

impl Default for PolicyRegistry {
    fn default() -> (r: Self)
        ensures
            r.wf(),
            r@ == Seq::<Entry>::empty(),
    {
        PolicyRegistry::new()
    }
}

} // verus!

//! The set of configured remotes: a mapping from remote name to URL.

use vstd::prelude::*;

verus! {

/// One configured remote.
#[derive(Debug, PartialEq, Eq)]
pub struct Remote {
    pub name: String,
    pub url: String,
}

impl View for Remote {
    type V = (Seq<char>, Seq<char>);

    open spec fn view(&self) -> (Seq<char>, Seq<char>) {
        (self.name@, self.url@)
    }
}

/// No two entries of `entries` carry the same name.
pub open spec fn distinct_names(entries: Seq<(Seq<char>, Seq<char>)>) -> bool {
    forall|i: int, j: int|
        0 <= i < entries.len() && 0 <= j < entries.len() && i != j ==> (#[trigger] entries[i]).0 != (
        #[trigger] entries[j]).0
}

/// The position of the entry named `name`, or `entries.len()` where there is
/// none.
pub open spec fn position(entries: Seq<(Seq<char>, Seq<char>)>, name: Seq<char>) -> int
    decreases entries.len(),
{
    if entries.len() == 0 {
        0
    } else if entries[0].0 == name {
        0
    } else {
        1 + position(entries.drop_first(), name)
    }
}

/// Whether an entry named `name` exists.
pub open spec fn has_name(entries: Seq<(Seq<char>, Seq<char>)>, name: Seq<char>) -> bool {
    exists|i: int| 0 <= i < entries.len() && (#[trigger] entries[i]).0 == name
}

/// `position` is in range exactly for the names that occur, and then points
/// at the first entry of that name.
pub proof fn lemma_position(entries: Seq<(Seq<char>, Seq<char>)>, name: Seq<char>)
    ensures
        0 <= position(entries, name) <= entries.len(),
        position(entries, name) < entries.len() <==> has_name(entries, name),
        position(entries, name) < entries.len() ==> entries[position(entries, name)].0 == name,
        forall|i: int| 0 <= i < position(entries, name) ==> (#[trigger] entries[i]).0 != name,
    decreases entries.len(),
{
    if entries.len() == 0 {
    } else if entries[0].0 == name {
    } else {
        let rest = entries.drop_first();
        lemma_position(rest, name);
        let p = position(rest, name);
        assert forall|i: int| 0 <= i < 1 + p implies (#[trigger] entries[i]).0 != name by {
            if i > 0 {
                assert(rest[i - 1] == entries[i]);
            }
        }
        if p < rest.len() {
            assert(entries[1 + p] == rest[p]);
        }
        if has_name(entries, name) {
            let i = choose|i: int| 0 <= i < entries.len() && (#[trigger] entries[i]).0 == name;
            assert(rest[i - 1] == entries[i]);
            assert(has_name(rest, name));
        }
    }
}

/// The mapping from remote name to URL. Every name occurs once; the entries
/// keep the order in which their names were first inserted.
#[derive(Debug)]
pub struct RepoSet {
    entries: Vec<Remote>,
}

impl View for RepoSet {
    type V = Seq<(Seq<char>, Seq<char>)>;

    closed spec fn view(&self) -> Seq<(Seq<char>, Seq<char>)> {
        Seq::new(self.entries@.len(), |i: int| self.entries@[i]@)
    }
}

impl RepoSet {
    #[verifier::type_invariant]
    spec fn names_are_distinct(&self) -> bool {
        distinct_names(self@)
    }

    /// The empty set.
    pub fn new() -> (set: RepoSet)
        ensures
            set@ == Seq::<(Seq<char>, Seq<char>)>::empty(),
    {
        RepoSet { entries: Vec::new() }
    }

    /// The number of remotes.
    pub fn len(&self) -> (n: usize)
        ensures
            n == self@.len(),
    {
        self.entries.len()
    }

    /// Whether there is no remote at all.
    pub fn is_empty(&self) -> (empty: bool)
        ensures
            empty == (self@.len() == 0),
    {
        self.entries.len() == 0
    }

    /// The entries in their order. No two of them share a name.
    pub fn entries(&self) -> (entries: &Vec<Remote>)
        ensures
            entries@.len() == self@.len(),
            forall|i: int| 0 <= i < entries@.len() ==> (#[trigger] entries@[i])@ == self@[i],
            distinct_names(self@),
    {
        proof {
            use_type_invariant(self);
        }
        &self.entries
    }

    fn find(&self, name: &String) -> (at: usize)
        ensures
            at == position(self@, name@),
    {
        let mut at: usize = 0;
        while at < self.entries.len()
            invariant
                at <= self.entries@.len(),
                forall|i: int| 0 <= i < at ==> (#[trigger] self@[i]).0 != name@,
            decreases self.entries@.len() - at,
        {
            if self.entries[at].name == *name {
                proof {
                    lemma_position(self@, name@);
                    assert(self@[at as int].0 == name@);
                }
                return at;
            }
            at += 1;
        }
        proof {
            lemma_position(self@, name@);
        }
        at
    }

    /// Whether a remote named `name` is configured.
    pub fn contains_key(&self, name: &String) -> (found: bool)
        ensures
            found == has_name(self@, name@),
    {
        proof {
            lemma_position(self@, name@);
        }
        self.find(name) < self.entries.len()
    }

    /// The URL of the remote named `name`.
    pub fn get(&self, name: &String) -> (url: Option<&String>)
        ensures
            match url {
                Some(u) => has_name(self@, name@) && u@ == self@[position(self@, name@)].1,
                None => !has_name(self@, name@),
            },
    {
        proof {
            lemma_position(self@, name@);
        }
        let at = self.find(name);
        if at < self.entries.len() {
            Some(&self.entries[at].url)
        } else {
            None
        }
    }

    /// Maps `name` to `url`. A name that is new goes to the end; one that is
    /// already there keeps its place, takes the new URL and hands back the
    /// old one.
    pub fn insert(&mut self, name: String, url: String) -> (previous: Option<String>)
        ensures
            match previous {
                Some(p) => {
                    &&& has_name(old(self)@, name@)
                    &&& p@ == old(self)@[position(old(self)@, name@)].1
                    &&& final(self)@ == old(self)@.update(
                        position(old(self)@, name@),
                        (name@, url@),
                    )
                },
                None => {
                    &&& !has_name(old(self)@, name@)
                    &&& final(self)@ == old(self)@.push((name@, url@))
                },
            },
    {
        proof {
            use_type_invariant(&*self);
            lemma_position(self@, name@);
        }
        let at = self.find(&name);
        let ghost before = self@;
        let mut entries: Vec<Remote> = Vec::new();
        std::mem::swap(&mut entries, &mut self.entries);
        let previous = if at < entries.len() {
            let previous = entries[at].url.clone();
            entries.set(at, Remote { name, url });
            Some(previous)
        } else {
            entries.push(Remote { name, url });
            None
        };
        proof {
            let after = Seq::new(entries@.len(), |i: int| entries@[i]@);
            if at < before.len() {
                assert(after =~= before.update(at as int, (name@, url@)));
            } else {
                assert(after =~= before.push((name@, url@)));
            }
            assert(distinct_names(after));
        }
        self.entries = entries;
        previous
    }
}

} // verus!

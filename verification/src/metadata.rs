//! Textual tags (artist, title, ...) attached to a file.
use vstd::prelude::*;

verus! {

/// The value stored under `key` in `entries`: that of the first entry with that key.
pub open spec fn lookup(entries: Seq<(String, String)>, key: Seq<char>) -> Option<Seq<char>>
    decreases entries.len(),
{
    if entries.len() == 0 {
        None
    } else if entries[0].0@ == key {
        Some(entries[0].1@)
    } else {
        lookup(entries.skip(1), key)
    }
}

/// Where the first entry with `key` stands in `entries`, if any.
pub open spec fn position_of(entries: Seq<(String, String)>, key: Seq<char>) -> Option<int>
    decreases entries.len(),
{
    if entries.len() == 0 {
        None
    } else if entries[0].0@ == key {
        Some(0)
    } else {
        match position_of(entries.skip(1), key) {
            Some(i) => Some(i + 1),
            None => None,
        }
    }
}

proof fn lemma_position_of(entries: Seq<(String, String)>, key: Seq<char>)
    ensures
        position_of(entries, key) matches Some(i) ==> 0 <= i < entries.len() && entries[i].0@ == key
            && lookup(entries, key) == Some(entries[i].1@)
            && forall|j: int| 0 <= j < i ==> entries[j].0@ != key,
        position_of(entries, key) is None ==> lookup(entries, key) is None
            && forall|j: int| 0 <= j < entries.len() ==> entries[j].0@ != key,
    decreases entries.len(),
{
    if entries.len() > 0 && entries[0].0@ != key {
        lemma_position_of(entries.skip(1), key);
        assert forall|j: int| 1 <= j < entries.len() implies entries[j] == entries.skip(1)[j - 1] by {}
    }
}

proof fn lemma_lookup_update(entries: Seq<(String, String)>, i: int, e: (String, String), key: Seq<char>)
    requires
        0 <= i < entries.len(),
        forall|j: int| 0 <= j < i ==> entries[j].0@ != e.0@,
        entries[i].0@ == e.0@,
    ensures
        lookup(entries.update(i, e), key) == if key == e.0@ { Some(e.1@) } else { lookup(entries, key) },
    decreases entries.len(),
{
    let u = entries.update(i, e);
    if i == 0 {
        assert(u.skip(1) =~= entries.skip(1));
    } else {
        assert(u.skip(1) =~= entries.skip(1).update(i - 1, e));
        assert(u[0] == entries[0]);
        assert forall|j: int| 0 <= j < i - 1 implies entries.skip(1)[j].0@ != e.0@ by {
            assert(entries.skip(1)[j] == entries[j + 1]);
        }
        lemma_lookup_update(entries.skip(1), i - 1, e, key);
    }
}

proof fn lemma_lookup_push(entries: Seq<(String, String)>, e: (String, String), key: Seq<char>)
    requires
        forall|j: int| 0 <= j < entries.len() ==> entries[j].0@ != e.0@,
    ensures
        lookup(entries.push(e), key) == if key == e.0@ { Some(e.1@) } else { lookup(entries, key) },
    decreases entries.len(),
{
    if entries.len() > 0 {
        assert(entries.push(e).skip(1) =~= entries.skip(1).push(e));
        assert(entries.push(e)[0] == entries[0]);
        assert(entries[0].0@ != e.0@);
        assert forall|j: int| 0 <= j < entries.skip(1).len() implies entries.skip(1)[j].0@ != e.0@ by {
            assert(entries.skip(1)[j] == entries[j + 1]);
        }
        lemma_lookup_push(entries.skip(1), e, key);
    } else {
        assert(entries.push(e).skip(1) =~= Seq::<(String, String)>::empty());
        assert(lookup(entries.push(e).skip(1), key) is None);
    }
}

/// Tags as key/value pairs; storing under a key that is there replaces its value.
#[derive(Debug)]
pub struct Metadata {
    entries: Vec<(String, String)>,
}

impl Metadata {
    /// The tags as a lookup from key to value.
    pub closed spec fn get_spec(&self, key: Seq<char>) -> Option<Seq<char>> {
        lookup(self.entries@, key)
    }

    /// The number of tags.
    pub closed spec fn size(&self) -> nat {
        self.entries@.len()
    }

    /// A tag stored under some key means the tags are not empty.
    pub proof fn lemma_stored_means_nonempty(&self, key: Seq<char>)
        ensures
            self.get_spec(key) is Some ==> self.size() > 0,
    {
    }

    /// The tags as stored, in the order their keys were first stored.
    pub closed spec fn entries_spec(&self) -> Seq<(String, String)> {
        self.entries@
    }

    /// No tags.
    pub fn new() -> (m: Metadata)
        ensures
            m.size() == 0,
            forall|k: Seq<char>| m.get_spec(k) is None,
    {
        Metadata { entries: Vec::new() }
    }

    fn find(&self, key: &String) -> (r: Option<usize>)
        ensures
            r matches Some(i) ==> position_of(self.entries@, key@) == Some(i as int),
            r is None ==> position_of(self.entries@, key@) is None,
    {
        let mut i: usize = 0;
        assert(self.entries@.skip(0) =~= self.entries@);
        while i < self.entries.len()
            invariant
                i <= self.entries@.len(),
                position_of(self.entries@, key@) == (match position_of(self.entries@.skip(i as int), key@) {
                    Some(k) => Some(k + i),
                    None => None::<int>,
                }),
            decreases self.entries@.len() - i,
        {
            if self.entries[i].0 == *key {
                return Some(i);
            }
            assert(self.entries@.skip(i as int).skip(1) =~= self.entries@.skip(i + 1));
            i = i + 1;
        }
        None
    }

    /// Stores `value` under `key`, replacing what was stored there.
    pub fn set(&mut self, key: &str, value: String)
        ensures
            final(self).get_spec(key@) == Some(value@),
            forall|k: Seq<char>| k != key@ ==> final(self).get_spec(k) == old(self).get_spec(k),
            old(self).get_spec(key@) is Some ==> final(self).size() == old(self).size(),
            old(self).get_spec(key@) is None ==> final(self).size() == old(self).size() + 1,
    {
        let k = String::from_str(key);
        proof {
            lemma_position_of(self.entries@, k@);
        }
        match self.find(&k) {
            Some(i) => {
                let ghost e = (k, value);
                proof {
                    assert forall|key2: Seq<char>| true implies lookup(self.entries@.update(i as int, e), key2)
                        == if key2 == k@ { Some(value@) } else { lookup(self.entries@, key2) } by {
                        lemma_lookup_update(self.entries@, i as int, e, key2);
                    }
                }
                self.entries.set(i, (k, value));
            },
            None => {
                let ghost e = (k, value);
                proof {
                    assert forall|key2: Seq<char>| true implies lookup(self.entries@.push(e), key2)
                        == if key2 == k@ { Some(value@) } else { lookup(self.entries@, key2) } by {
                        lemma_lookup_push(self.entries@, e, key2);
                    }
                }
                self.entries.push((k, value));
            },
        }
    }

    /// The value stored under `key`, if any.
    pub fn get(&self, key: &str) -> (r: Option<&String>)
        ensures
            match self.get_spec(key@) {
                Some(v) => r matches Some(s) && s@ == v,
                None => r is None,
            },
    {
        let k = String::from_str(key);
        proof {
            lemma_position_of(self.entries@, k@);
        }
        match self.find(&k) {
            Some(i) => Some(&self.entries[i].1),
            None => None,
        }
    }

    /// All tags, in the order their keys were first stored.
    pub fn all_fields(&self) -> (r: &[(String, String)])
        ensures
            r@ == self.entries_spec(),
            r@.len() == self.size(),
            forall|k: Seq<char>| #[trigger] self.get_spec(k) == lookup(r@, k),
    {
        self.entries.as_slice()
    }

    /// Whether no tag is stored.
    pub fn is_empty(&self) -> (b: bool)
        ensures
            b == (self.size() == 0),
            b ==> forall|k: Seq<char>| self.get_spec(k) is None,
    {
        proof {
            if self.entries@.len() == 0 {
                assert forall|k: Seq<char>| self.get_spec(k) is None by {}
            }
        }
        self.entries.len() == 0
    }
}

} // verus!

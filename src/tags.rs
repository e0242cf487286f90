//! String-keyed tags attached to a particle.
use vstd::prelude::*;

verus! {

/// Every key occurs at most once.
pub open spec fn keys_unique(s: Seq<(String, String)>) -> bool {
    forall|i: int, j: int|
        0 <= i < s.len() && 0 <= j < s.len() && s[i].0@ == s[j].0@ ==> i == j
}

/// Whether some entry carries `k`.
pub open spec fn has_key(s: Seq<(String, String)>, k: Seq<char>) -> bool {
    exists|i: int| 0 <= i < s.len() && s[i].0@ == k
}

/// The map that a list of entries stands for.
pub open spec fn entries_map(s: Seq<(String, String)>) -> Map<Seq<char>, Seq<char>> {
    Map::new(
        |k: Seq<char>| has_key(s, k),
        |k: Seq<char>| s[choose|i: int| 0 <= i < s.len() && s[i].0@ == k].1@,
    )
}

/// The value of `key`, the empty string where the key is missing.
pub open spec fn tag_of(tags: Map<Seq<char>, Seq<char>>, key: Seq<char>) -> Seq<char> {
    if tags.contains_key(key) {
        tags[key]
    } else {
        Seq::empty()
    }
}

/// With unique keys, an entry gives its key's value.
pub proof fn lemma_entry_value(s: Seq<(String, String)>, i: int)
    requires
        keys_unique(s),
        0 <= i < s.len(),
    ensures
        entries_map(s).contains_key(s[i].0@),
        entries_map(s)[s[i].0@] == s[i].1@,
{
    let k = s[i].0@;
    assert(has_key(s, k));
    let j = choose|j: int| 0 <= j < s.len() && s[j].0@ == k;
    assert(j == i);
}

/// Appending an entry with a fresh key inserts it.
pub proof fn lemma_push_fresh(s: Seq<(String, String)>, e: (String, String))
    requires
        keys_unique(s),
        !has_key(s, e.0@),
    ensures
        keys_unique(s.push(e)),
        entries_map(s.push(e)) == entries_map(s).insert(e.0@, e.1@),
{
    let t = s.push(e);
    assert(keys_unique(t)) by {
        assert forall|i: int, j: int|
            0 <= i < t.len() && 0 <= j < t.len() && t[i].0@ == t[j].0@ implies i == j by {
            if i < s.len() && j < s.len() {
                assert(t[i] == s[i] && t[j] == s[j]);
            } else if i < s.len() {
                assert(t[i] == s[i]);
            } else if j < s.len() {
                assert(t[j] == s[j]);
            }
        }
    }
    let m = entries_map(s).insert(e.0@, e.1@);
    assert forall|k: Seq<char>| #[trigger] m.contains_key(k) == entries_map(t).contains_key(k) by {
        if has_key(s, k) {
            let i = choose|i: int| 0 <= i < s.len() && s[i].0@ == k;
            assert(t[i] == s[i]);
        }
        if has_key(t, k) && k != e.0@ {
            let i = choose|i: int| 0 <= i < t.len() && t[i].0@ == k;
            assert(i < s.len());
            assert(t[i] == s[i]);
        }
        assert(t[s.len() as int] == e);
    }
    assert forall|k: Seq<char>| #[trigger] m.contains_key(k) implies m[k] == entries_map(t)[k] by {
        if k == e.0@ {
            assert(t[s.len() as int] == e);
            lemma_entry_value(t, s.len() as int);
        } else {
            let i = choose|i: int| 0 <= i < s.len() && s[i].0@ == k;
            lemma_entry_value(s, i);
            assert(t[i] == s[i]);
            lemma_entry_value(t, i);
        }
    }
    assert(m =~= entries_map(t));
}

/// Replacing the value of an entry updates its key.
pub proof fn lemma_update_value(s: Seq<(String, String)>, i: int, e: (String, String))
    requires
        keys_unique(s),
        0 <= i < s.len(),
        s[i].0@ == e.0@,
    ensures
        keys_unique(s.update(i, e)),
        entries_map(s.update(i, e)) == entries_map(s).insert(e.0@, e.1@),
{
    let t = s.update(i, e);
    assert(keys_unique(t)) by {
        assert forall|a: int, b: int|
            0 <= a < t.len() && 0 <= b < t.len() && t[a].0@ == t[b].0@ implies a == b by {
            assert(t[a].0@ == s[a].0@ && t[b].0@ == s[b].0@);
        }
    }
    let m = entries_map(s).insert(e.0@, e.1@);
    assert forall|k: Seq<char>| #[trigger] m.contains_key(k) == entries_map(t).contains_key(k) by {
        if has_key(s, k) {
            let j = choose|j: int| 0 <= j < s.len() && s[j].0@ == k;
            assert(t[j].0@ == s[j].0@);
        }
        if has_key(t, k) {
            let j = choose|j: int| 0 <= j < t.len() && t[j].0@ == k;
            assert(t[j].0@ == s[j].0@);
        }
        assert(t[i] == e);
    }
    assert forall|k: Seq<char>| #[trigger] m.contains_key(k) implies m[k] == entries_map(t)[k] by {
        if k == e.0@ {
            assert(t[i] == e);
            lemma_entry_value(t, i);
        } else {
            let j = choose|j: int| 0 <= j < s.len() && s[j].0@ == k;
            lemma_entry_value(s, j);
            assert(t[j] == s[j]);
            lemma_entry_value(t, j);
        }
    }
    assert(m =~= entries_map(t));
}

/// With unique keys, the map has one key per entry.
pub proof fn lemma_size(s: Seq<(String, String)>)
    requires
        keys_unique(s),
    ensures
        entries_map(s).dom().finite(),
        entries_map(s).dom().len() == s.len(),
    decreases s.len(),
{
    if s.len() == 0 {
        assert(entries_map(s) =~= Map::<Seq<char>, Seq<char>>::empty());
    } else {
        let p = s.drop_last();
        assert(s =~= p.push(s.last()));
        assert(keys_unique(p)) by {
            assert forall|i: int, j: int|
                0 <= i < p.len() && 0 <= j < p.len() && p[i].0@ == p[j].0@ implies i == j by {
                assert(p[i] == s[i] && p[j] == s[j]);
            }
        }
        if has_key(p, s.last().0@) {
            let i = choose|i: int| 0 <= i < p.len() && p[i].0@ == s.last().0@;
            assert(p[i] == s[i]);
            assert(s[s.len() - 1] == s.last());
        }
        lemma_size(p);
        lemma_push_fresh(p, s.last());
    }
}

/// A particle's tags: string keys, each with one string value.
pub struct TagMap {
    entries: Vec<(String, String)>,
}

impl View for TagMap {
    type V = Map<Seq<char>, Seq<char>>;

    closed spec fn view(&self) -> Map<Seq<char>, Seq<char>> {
        entries_map(self.entries@)
    }
}

impl TagMap {
    /// No key is stored twice.
    pub closed spec fn wf(&self) -> bool {
        keys_unique(self.entries@)
    }

    /// A map without tags.
    pub fn new() -> (r: TagMap)
        ensures
            r.wf(),
            r@ == Map::<Seq<char>, Seq<char>>::empty(),
    {
        let r = TagMap { entries: Vec::new() };
        assert(r@ =~= Map::<Seq<char>, Seq<char>>::empty());
        r
    }

    /// The number of tags.
    pub fn len(&self) -> (r: usize)
        requires
            self.wf(),
        ensures
            self@.dom().finite(),
            r == self@.len(),
    {
        proof {
            lemma_size(self.entries@);
        }
        self.entries.len()
    }

    fn find(&self, key: &String) -> (r: Option<usize>)
        ensures
            match r {
                Some(i) => i < self.entries@.len() && self.entries@[i as int].0@ == key@,
                None => !has_key(self.entries@, key@),
            },
    {
        let n = self.entries.len();
        let mut i: usize = 0;
        while i < n
            invariant
                n == self.entries@.len(),
                i <= n,
                forall|j: int| 0 <= j < i ==> self.entries@[j].0@ != key@,
            decreases n - i,
        {
            if self.entries[i].0 == *key {
                return Some(i);
            }
            i += 1;
        }
        None
    }

    /// The value stored under `key`, or the empty string.
    pub fn get(&self, key: &String) -> (r: String)
        requires
            self.wf(),
        ensures
            r@ == tag_of(self@, key@),
    {
        match self.find(key) {
            Some(i) => {
                proof {
                    lemma_entry_value(self.entries@, i as int);
                }
                self.entries[i].1.clone()
            },
            None => String::new(),
        }
    }

    /// Stores `value` under `key`, replacing any earlier value.
    pub fn insert(&mut self, key: String, value: String)
        requires
            old(self).wf(),
        ensures
            final(self).wf(),
            final(self)@ == old(self)@.insert(key@, value@),
    {
        match self.find(&key) {
            Some(i) => {
                proof {
                    lemma_update_value(self.entries@, i as int, (key, value));
                }
                self.entries.set(i, (key, value));
            },
            None => {
                proof {
                    lemma_push_fresh(self.entries@, (key, value));
                }
                self.entries.push((key, value));
            },
        }
    }

    /// Stores every tag of `other`, whose values win over those here.
    pub fn extend(&mut self, other: &TagMap)
        requires
            old(self).wf(),
            other.wf(),
        ensures
            final(self).wf(),
            final(self)@ == old(self)@.union_prefer_right(other@),
    {
        let ghost start = self@;
        let n = other.entries.len();
        let mut i: usize = 0;
        while i < n
            invariant
                n == other.entries@.len(),
                i <= n,
                other.wf(),
                self.wf(),
                self@ == start.union_prefer_right(entries_map(other.entries@.take(i as int))),
            decreases n - i,
        {
            let e = &other.entries[i];
            proof {
                let p = other.entries@.take(i as int);
                assert(other.entries@.take(i + 1) =~= p.push(other.entries@[i as int]));
                assert(keys_unique(p));
                if has_key(p, e.0@) {
                    let j = choose|j: int| 0 <= j < p.len() && p[j].0@ == e.0@;
                    assert(p[j] == other.entries@[j]);
                }
                lemma_push_fresh(p, other.entries@[i as int]);
            }
            self.insert(e.0.clone(), e.1.clone());
            assert(self@ =~= start.union_prefer_right(entries_map(other.entries@.take(i + 1))));
            i += 1;
        }
        assert(other.entries@.take(n as int) =~= other.entries@);
    }
}

} // verus!

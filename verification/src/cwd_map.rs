//! The per-profile working directories: a map from profile name to path.
use vstd::prelude::*;

verus! {

/// First value stored under `k`.
pub open spec fn lookup(s: Seq<(Seq<char>, Seq<char>)>, k: Seq<char>) -> Option<Seq<char>>
    decreases s.len(),
{
    if s.len() == 0 {
        None
    } else if s[0].0 == k {
        Some(s[0].1)
    } else {
        lookup(s.drop_first(), k)
    }
}

/// No key occurs twice.
pub open spec fn unique_keys(s: Seq<(Seq<char>, Seq<char>)>) -> bool {
    forall|i: int, j: int| 0 <= i < j < s.len() ==> s[i].0 != s[j].0
}

/// Views of the stored pairs.
pub open spec fn pairs_view(v: Seq<(String, String)>) -> Seq<(Seq<char>, Seq<char>)> {
    Seq::new(v.len(), |i: int| (v[i].0@, v[i].1@))
}

/// The map a list of unique pairs stands for.
pub open spec fn as_map(s: Seq<(Seq<char>, Seq<char>)>) -> Map<Seq<char>, Seq<char>> {
    Map::new(|k: Seq<char>| lookup(s, k) is Some, |k: Seq<char>| lookup(s, k)->Some_0)
}

/// `lookup` finds the pair at `i` when its key is unique.
pub proof fn lemma_lookup_at(s: Seq<(Seq<char>, Seq<char>)>, i: int)
    requires
        0 <= i < s.len(),
        unique_keys(s),
    ensures
        lookup(s, s[i].0) == Some(s[i].1),
    decreases s.len(),
{
    if i > 0 {
        let t = s.drop_first();
        assert(t[i - 1] == s[i]);
        assert(unique_keys(t)) by {
            assert forall|a: int, b: int| 0 <= a < b < t.len() implies t[a].0 != t[b].0 by {
                assert(t[a] == s[a + 1]);
                assert(t[b] == s[b + 1]);
            }
        }
        lemma_lookup_at(t, i - 1);
    }
}

/// `lookup` finds nothing for a key no pair has, and finds the key when one has it.
pub proof fn lemma_lookup_absent(s: Seq<(Seq<char>, Seq<char>)>, k: Seq<char>)
    ensures
        (lookup(s, k) is None) <==> (forall|i: int| 0 <= i < s.len() ==> (#[trigger] s[i]).0 != k),
    decreases s.len(),
{
    if s.len() > 0 {
        let t = s.drop_first();
        lemma_lookup_absent(t, k);
        if s[0].0 != k {
            assert((forall|i: int| 0 <= i < s.len() ==> (#[trigger] s[i]).0 != k) <==> (forall|i: int| 0 <= i < t.len() ==> (#[trigger] t[i]).0 != k)) by {
                if forall|i: int| 0 <= i < t.len() ==> (#[trigger] t[i]).0 != k {
                    assert forall|i: int| 0 <= i < s.len() implies (#[trigger] s[i]).0 != k by {
                        if i > 0 {
                            assert(s[i] == t[i - 1]);
                        }
                    }
                }
                if forall|i: int| 0 <= i < s.len() ==> (#[trigger] s[i]).0 != k {
                    assert forall|i: int| 0 <= i < t.len() implies (#[trigger] t[i]).0 != k by {
                        assert(t[i] == s[i + 1]);
                    }
                }
            }
        }
    }
}

/// Index of the pair whose key is `key`.
fn index_in(entries: &Vec<(String, String)>, key: &String) -> (r: Option<usize>)
    ensures
        match r {
            Some(i) => i < entries@.len() && entries@[i as int].0@ == key@,
            None => forall|i: int| 0 <= i < entries@.len() ==> (#[trigger] pairs_view(entries@)[i]).0 != key@,
        },
{
    let mut i: usize = 0;
    while i < entries.len()
        invariant
            i <= entries@.len(),
            forall|j: int| 0 <= j < i ==> (#[trigger] pairs_view(entries@)[j]).0 != key@,
        decreases entries.len() - i,
    {
        if entries[i].0 == *key {
            return Some(i);
        }
        i = i + 1;
    }
    None
}

/// Replacing the value of a key keeps the keys unique and updates the map.
pub proof fn lemma_update_same_key(s: Seq<(Seq<char>, Seq<char>)>, i: int, v: Seq<char>)
    requires
        0 <= i < s.len(),
        unique_keys(s),
    ensures
        unique_keys(s.update(i, (s[i].0, v))),
        as_map(s.update(i, (s[i].0, v))) == as_map(s).insert(s[i].0, v),
{
    let t = s.update(i, (s[i].0, v));
    let k = s[i].0;
    assert(unique_keys(t)) by {
        assert forall|a: int, b: int| 0 <= a < b < t.len() implies t[a].0 != t[b].0 by {
            assert(t[a].0 == s[a].0);
            assert(t[b].0 == s[b].0);
        }
    }
    assert forall|x: Seq<char>| #[trigger] lookup(t, x) == as_map(s).insert(k, v).get(x) by {
        lemma_lookup_absent(t, x);
        lemma_lookup_absent(s, x);
        if x == k {
            lemma_lookup_at(t, i);
        } else if exists|j: int| 0 <= j < s.len() && (#[trigger] s[j]).0 == x {
            let j = choose|j: int| 0 <= j < s.len() && (#[trigger] s[j]).0 == x;
            lemma_lookup_at(s, j);
            assert(t[j] == s[j]);
            lemma_lookup_at(t, j);
        } else {
            assert forall|j: int| 0 <= j < t.len() implies (#[trigger] t[j]).0 != x by {
                assert(t[j].0 == s[j].0);
            }
        }
    }
    assert(as_map(t) =~= as_map(s).insert(k, v)) by {
        assert forall|x: Seq<char>| as_map(t).dom().contains(x) <==> as_map(s).insert(k, v).dom().contains(x) by {
            assert(lookup(t, x) == as_map(s).insert(k, v).get(x));
        }
        assert forall|x: Seq<char>| as_map(t).dom().contains(x) implies as_map(t)[x] == as_map(s).insert(k, v)[x] by {
            assert(lookup(t, x) == as_map(s).insert(k, v).get(x));
        }
    }
}

/// Appending a pair with a new key keeps the keys unique and adds it to the map.
pub proof fn lemma_push_new_key(s: Seq<(Seq<char>, Seq<char>)>, k: Seq<char>, v: Seq<char>)
    requires
        unique_keys(s),
        forall|i: int| 0 <= i < s.len() ==> (#[trigger] s[i]).0 != k,
    ensures
        unique_keys(s.push((k, v))),
        as_map(s.push((k, v))) == as_map(s).insert(k, v),
{
    let t = s.push((k, v));
    assert(unique_keys(t)) by {
        assert forall|a: int, b: int| 0 <= a < b < t.len() implies t[a].0 != t[b].0 by {
            assert(t[a] == s[a]);
            if b < s.len() {
                assert(t[b] == s[b]);
            }
        }
    }
    assert forall|x: Seq<char>| #[trigger] lookup(t, x) == as_map(s).insert(k, v).get(x) by {
        lemma_lookup_absent(t, x);
        lemma_lookup_absent(s, x);
        if x == k {
            lemma_lookup_at(t, s.len() as int);
        } else if exists|j: int| 0 <= j < s.len() && (#[trigger] s[j]).0 == x {
            let j = choose|j: int| 0 <= j < s.len() && (#[trigger] s[j]).0 == x;
            lemma_lookup_at(s, j);
            assert(t[j] == s[j]);
            lemma_lookup_at(t, j);
        } else {
            assert forall|j: int| 0 <= j < t.len() implies (#[trigger] t[j]).0 != x by {
                if j < s.len() {
                    assert(t[j] == s[j]);
                }
            }
        }
    }
    assert(as_map(t) =~= as_map(s).insert(k, v)) by {
        assert forall|x: Seq<char>| as_map(t).dom().contains(x) <==> as_map(s).insert(k, v).dom().contains(x) by {
            assert(lookup(t, x) == as_map(s).insert(k, v).get(x));
        }
        assert forall|x: Seq<char>| as_map(t).dom().contains(x) implies as_map(t)[x] == as_map(s).insert(k, v)[x] by {
            assert(lookup(t, x) == as_map(s).insert(k, v).get(x));
        }
    }
}

/// Dropping the pair at `i` keeps the keys unique and removes its key from the map.
pub proof fn lemma_remove_key(s: Seq<(Seq<char>, Seq<char>)>, i: int)
    requires
        0 <= i < s.len(),
        unique_keys(s),
    ensures
        unique_keys(s.remove(i)),
        as_map(s.remove(i)) == as_map(s).remove(s[i].0),
{
    let t = s.remove(i);
    let k = s[i].0;
    assert(unique_keys(t)) by {
        assert forall|a: int, b: int| 0 <= a < b < t.len() implies t[a].0 != t[b].0 by {
            let a2 = if a < i { a } else { a + 1 };
            let b2 = if b < i { b } else { b + 1 };
            assert(t[a] == s[a2]);
            assert(t[b] == s[b2]);
        }
    }
    assert forall|x: Seq<char>| #[trigger] lookup(t, x) == as_map(s).remove(k).get(x) by {
        lemma_lookup_absent(t, x);
        lemma_lookup_absent(s, x);
        if x == k {
            assert forall|j: int| 0 <= j < t.len() implies (#[trigger] t[j]).0 != x by {
                let j2 = if j < i { j } else { j + 1 };
                assert(t[j] == s[j2]);
            }
        } else if exists|j: int| 0 <= j < s.len() && (#[trigger] s[j]).0 == x {
            let j = choose|j: int| 0 <= j < s.len() && (#[trigger] s[j]).0 == x;
            lemma_lookup_at(s, j);
            let j2 = if j < i { j } else { j - 1 };
            assert(t[j2] == s[j]);
            lemma_lookup_at(t, j2);
        } else {
            assert forall|j: int| 0 <= j < t.len() implies (#[trigger] t[j]).0 != x by {
                let j2 = if j < i { j } else { j + 1 };
                assert(t[j] == s[j2]);
            }
        }
    }
    assert(as_map(t) =~= as_map(s).remove(k)) by {
        assert forall|x: Seq<char>| as_map(t).dom().contains(x) <==> as_map(s).remove(k).dom().contains(x) by {
            assert(lookup(t, x) == as_map(s).remove(k).get(x));
        }
        assert forall|x: Seq<char>| as_map(t).dom().contains(x) implies as_map(t)[x] == as_map(s).remove(k)[x] by {
            assert(lookup(t, x) == as_map(s).remove(k).get(x));
        }
    }
}

/// Profile name → working directory, each profile listed once.
#[derive(Debug)]
pub struct CwdMap {
    entries: Vec<(String, String)>,
}

impl CwdMap {
    #[verifier::type_invariant]
    spec fn keys_unique(self) -> bool {
        unique_keys(pairs_view(self.entries@))
    }

    /// The map held.
    pub closed spec fn view(&self) -> Map<Seq<char>, Seq<char>> {
        as_map(pairs_view(self.entries@))
    }

    /// An empty map.
    pub fn new() -> (m: CwdMap)
        ensures
            m.view() == Map::<Seq<char>, Seq<char>>::empty(),
    {
        let m = CwdMap { entries: Vec::new() };
        assert(m.view() =~= Map::<Seq<char>, Seq<char>>::empty());
        m
    }

    /// The directory remembered for `key`.
    pub fn get(&self, key: &str) -> (r: Option<&String>)
        ensures
            match r {
                Some(v) => self.view().contains_key(key@) && self.view()[key@] == v@,
                None => !self.view().contains_key(key@),
            },
    {
        proof { use_type_invariant(self); }
        let k = String::from_str(key);
        match index_in(&self.entries, &k) {
            Some(i) => {
                proof { lemma_lookup_at(pairs_view(self.entries@), i as int); }
                Some(&self.entries[i].1)
            },
            None => {
                proof { lemma_lookup_absent(pairs_view(self.entries@), key@); }
                None
            },
        }
    }

    /// Remembers `value` for `key`, handing back the directory it replaces.
    pub fn insert(&mut self, key: String, value: String) -> (r: Option<String>)
        ensures
            final(self).view() == old(self).view().insert(key@, value@),
            match r {
                Some(v) => old(self).view().contains_key(key@) && old(self).view()[key@] == v@,
                None => !old(self).view().contains_key(key@),
            },
    {
        proof { use_type_invariant(&*self); }
        let ghost before = pairs_view(self.entries@);
        let mut entries: Vec<(String, String)> = Vec::new();
        std::mem::swap(&mut entries, &mut self.entries);
        let found = index_in(&entries, &key);
        match found {
            Some(i) => {
                proof { lemma_lookup_at(before, i as int); }
                let ghost k = key@;
                let ghost v = value@;
                let (_, prev) = entries.remove(i);
                entries.insert(i, (key, value));
                proof {
                    let after = pairs_view(entries@);
                    assert(after =~= before.update(i as int, (k, v)));
                    lemma_update_same_key(before, i as int, v);
                }
                self.entries = entries;
                Some(prev)
            },
            None => {
                proof { lemma_lookup_absent(before, key@); }
                let ghost k = key@;
                let ghost v = value@;
                entries.push((key, value));
                proof {
                    let after = pairs_view(entries@);
                    assert(after =~= before.push((k, v)));
                    lemma_push_new_key(before, k, v);
                }
                self.entries = entries;
                None
            },
        }
    }

    /// Forgets the directory of `key`, handing it back.
    pub fn remove(&mut self, key: &str) -> (r: Option<String>)
        ensures
            final(self).view() == old(self).view().remove(key@),
            match r {
                Some(v) => old(self).view().contains_key(key@) && old(self).view()[key@] == v@,
                None => !old(self).view().contains_key(key@),
            },
    {
        proof { use_type_invariant(&*self); }
        let ghost before = pairs_view(self.entries@);
        let k = String::from_str(key);
        let mut entries: Vec<(String, String)> = Vec::new();
        std::mem::swap(&mut entries, &mut self.entries);
        match index_in(&entries, &k) {
            Some(i) => {
                proof { lemma_lookup_at(before, i as int); }
                let (_, prev) = entries.remove(i);
                proof {
                    let after = pairs_view(entries@);
                    assert(after =~= before.remove(i as int));
                    lemma_remove_key(before, i as int);
                }
                self.entries = entries;
                Some(prev)
            },
            None => {
                proof {
                    lemma_lookup_absent(before, key@);
                    assert(as_map(before).remove(key@) =~= as_map(before));
                }
                self.entries = entries;
                None
            },
        }
    }

    /// The remembered pairs, each profile once.
    pub fn to_pairs(&self) -> (v: Vec<(String, String)>)
        ensures
            unique_keys(pairs_view(v@)),
            as_map(pairs_view(v@)) == self.view(),
    {
        proof { use_type_invariant(self); }
        let mut out: Vec<(String, String)> = Vec::new();
        let mut i: usize = 0;
        while i < self.entries.len()
            invariant
                i <= self.entries@.len(),
                pairs_view(out@) =~= pairs_view(self.entries@).subrange(0, i as int),
            decreases self.entries.len() - i,
        {
            let k = self.entries[i].0.clone();
            let v = self.entries[i].1.clone();
            let ghost prev = out@;
            assert(pairs_view(prev).len() == i);
            assert(prev.len() == i);
            out.push((k, v));
            proof {
                assert(out@.len() == i + 1);
                assert(pairs_view(out@) =~= pairs_view(self.entries@).subrange(0, i + 1)) by {
                    assert forall|j: int| 0 <= j < i + 1 implies pairs_view(out@)[j] == pairs_view(self.entries@)[j] by {
                        if j < i {
                            assert(out@[j] == prev[j]);
                            assert(pairs_view(prev)[j] == pairs_view(self.entries@).subrange(0, i as int)[j]);
                        }
                    }
                }
            }
            i = i + 1;
        }
        proof {
            assert(pairs_view(out@) =~= pairs_view(self.entries@));
        }
        out
    }

    /// Whether a directory is remembered for `key`.
    pub fn contains_key(&self, key: &str) -> (b: bool)
        ensures
            b == self.view().contains_key(key@),
    {
        self.get(key).is_some()
    }

    /// Number of profiles with a remembered directory.
    pub fn len(&self) -> (n: usize)
        ensures
            n == self.view().dom().len(),
    {
        proof {
            use_type_invariant(self);
            lemma_dom_len(pairs_view(self.entries@));
        }
        self.entries.len()
    }

    /// Whether no directory is remembered.
    pub fn is_empty(&self) -> (b: bool)
        ensures
            b == (self.view().dom().len() == 0),
    {
        self.len() == 0
    }
}

/// The domain of a list of unique pairs has one key per pair.
pub proof fn lemma_dom_len(s: Seq<(Seq<char>, Seq<char>)>)
    requires
        unique_keys(s),
    ensures
        as_map(s).dom().finite(),
        as_map(s).dom().len() == s.len(),
    decreases s.len(),
{
    if s.len() == 0 {
        assert(as_map(s).dom() =~= Set::<Seq<char>>::empty());
    } else {
        let t = s.drop_last();
        assert(unique_keys(t)) by {
            assert forall|a: int, b: int| 0 <= a < b < t.len() implies t[a].0 != t[b].0 by {
                assert(t[a] == s[a]);
                assert(t[b] == s[b]);
            }
        }
        lemma_dom_len(t);
        let k = s.last().0;
        assert(as_map(s).dom() =~= as_map(t).dom().insert(k)) by {
            assert forall|x: Seq<char>| as_map(s).dom().contains(x) <==> as_map(t).dom().contains(x) || x == k by {
                lemma_lookup_absent(s, x);
                lemma_lookup_absent(t, x);
                if x == k {
                    assert(s[s.len() - 1].0 == k);
                }
                if as_map(t).dom().contains(x) {
                    let i = choose|i: int| 0 <= i < t.len() && (#[trigger] t[i]).0 == x;
                    assert(s[i] == t[i]);
                }
                if as_map(s).dom().contains(x) && x != k {
                    let i = choose|i: int| 0 <= i < s.len() && (#[trigger] s[i]).0 == x;
                    assert(i < t.len());
                    assert(t[i] == s[i]);
                }
            }
        }
        lemma_lookup_absent(t, k);
        assert(!as_map(t).dom().contains(k)) by {
            assert forall|i: int| 0 <= i < t.len() implies (#[trigger] t[i]).0 != k by {
                assert(t[i] == s[i]);
                assert(s[s.len() - 1].0 == k);
            }
        }
    }
}

} // verus!

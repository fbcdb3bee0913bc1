use vstd::prelude::*;

verus! {

/// Character-wise equality of two string slices.
pub fn str_eq(a: &str, b: &str) -> (r: bool)
    ensures
        r == (a@ == b@),
{
    let n = a.unicode_len();
    if n != b.unicode_len() {
        return false;
    }
    let mut i: usize = 0;
    while i < n
        invariant
            n == a@.len(),
            n == b@.len(),
            i <= n,
            forall|j: int| 0 <= j < i ==> a@[j] == b@[j],
        decreases n - i,
    {
        if a.get_char(i) != b.get_char(i) {
            return false;
        }
        i = i + 1;
    }
    assert(a@ =~= b@);
    true
}

/// The value bound to `key` in a list of bindings: the last binding of that
/// key wins.
pub open spec fn bound_value<V>(s: Seq<(String, V)>, key: Seq<char>) -> Option<V>
    decreases s.len(),
{
    if s.len() == 0 {
        None
    } else if s.last().0@ == key {
        Some(s.last().1)
    } else {
        bound_value(s.drop_last(), key)
    }
}

proof fn lemma_bound_value_push<V>(s: Seq<(String, V)>, x: (String, V), key: Seq<char>)
    ensures
        bound_value(s.push(x), key) == if x.0@ == key {
            Some(x.1)
        } else {
            bound_value(s, key)
        },
{
    assert(s.push(x).drop_last() =~= s);
}

proof fn lemma_bound_value_update<V>(s: Seq<(String, V)>, i: int, x: (String, V), key: Seq<char>)
    requires
        0 <= i < s.len(),
        s[i].0@ == x.0@,
        forall|j: int| i < j < s.len() ==> s[j].0@ != x.0@,
    ensures
        bound_value(s.update(i, x), key) == if x.0@ == key {
            Some(x.1)
        } else {
            bound_value(s, key)
        },
    decreases s.len(),
{
    let t = s.update(i, x);
    if i == s.len() - 1 {
        assert(t.drop_last() =~= s.drop_last());
    } else {
        assert(t.last() == s.last());
        assert(t.drop_last() =~= s.drop_last().update(i, x));
        lemma_bound_value_update(s.drop_last(), i, x, key);
    }
}

/// No key is bound twice.
pub open spec fn keys_distinct<V>(s: Seq<(String, V)>) -> bool {
    forall|i: int, j: int| 0 <= i < j < s.len() ==> s[i].0@ != s[j].0@
}

pub proof fn lemma_bound_value_at_index<V>(s: Seq<(String, V)>, i: int)
    requires
        keys_distinct(s),
        0 <= i < s.len(),
    ensures
        bound_value(s, s[i].0@) == Some(s[i].1),
    decreases s.len(),
{
    if i < s.len() - 1 {
        assert(s.drop_last()[i] == s[i]);
        lemma_bound_value_at_index(s.drop_last(), i);
    }
}

proof fn lemma_bound_value_has_index<V>(s: Seq<(String, V)>, key: Seq<char>)
    ensures
        bound_value(s, key) is Some <==> exists|i: int| 0 <= i < s.len() && s[i].0@ == key,
        bound_value(s, key) matches Some(v) ==> exists|i: int|
            0 <= i < s.len() && s[i].0@ == key && s[i].1 == v,
    decreases s.len(),
{
    if s.len() > 0 {
        lemma_bound_value_has_index(s.drop_last(), key);
        if s.last().0@ != key {
            assert forall|i: int| 0 <= i < s.len() && s[i].0@ == key implies 0 <= i < s.len()
                - 1 && s.drop_last()[i].0@ == key by {}
            if bound_value(s, key) is Some {
                let i = choose|i: int|
                    0 <= i < s.drop_last().len() && s.drop_last()[i].0@ == key
                        && Some(s.drop_last()[i].1) == bound_value(s, key);
                assert(s[i] == s.drop_last()[i]);
            }
        }
    }
}

/// Position of the binding that decides the value of `key` in `entries`.
pub fn find_binding<V>(entries: &Vec<(String, V)>, key: &str) -> (r: Option<usize>)
    ensures
        match r {
            Some(i) => {
                &&& i < entries@.len()
                &&& entries@[i as int].0@ == key@
                &&& forall|j: int|
                    i < j < entries@.len() ==> entries@[j].0@ != key@
                &&& bound_value(entries@, key@) == Some(entries@[i as int].1)
            },
            None => bound_value(entries@, key@) is None,
        },
{
    let mut j: usize = entries.len();
    assert(entries@.subrange(0, j as int) =~= entries@);
    while j > 0
        invariant
            j <= entries@.len(),
            bound_value(entries@.subrange(0, j as int), key@) == bound_value(entries@, key@),
            forall|m: int| j <= m < entries@.len() ==> entries@[m].0@ != key@,
        decreases j,
    {
        let ghost pre = entries@.subrange(0, j as int);
        assert(pre.drop_last() =~= entries@.subrange(0, j - 1));
        if str_eq(entries[j - 1].0.as_str(), key) {
            return Some(j - 1);
        }
        j = j - 1;
    }
    assert(entries@.subrange(0, 0) =~= Seq::<(String, V)>::empty());
    None
}

/// A finite mapping from string keys to values, kept as a list of bindings.
#[derive(Debug)]
pub struct Keyed<V> {
    entries: Vec<(String, V)>,
}

impl<V> Keyed<V> {
    #[verifier::type_invariant]
    spec fn distinct(&self) -> bool {
        keys_distinct(self.entries@)
    }

    /// A bound key comes from one of the bindings.
    pub proof fn lemma_bound_from_binding(&self, key: Seq<char>)
        ensures
            self.has(key) <==> exists|i: int|
                0 <= i < self.bindings().len() && self.bindings()[i].0@ == key,
    {
        lemma_bound_value_has_index(self.entries@, key);
    }

    /// The binding at position `i`; it decides the value of its key.
    pub fn entry_at(&self, i: usize) -> (r: (&String, &V))
        requires
            i < self.bindings().len(),
        ensures
            *r.0 == self.bindings()[i as int].0,
            *r.1 == self.bindings()[i as int].1,
            self.at(r.0@) == Some(*r.1),
            keys_distinct(self.bindings()),
    {
        proof {
            use_type_invariant(self);
            lemma_bound_value_at_index(self.entries@, i as int);
        }
        (&self.entries[i].0, &self.entries[i].1)
    }

    /// Key of the binding at position `i`.
    pub fn key_at(&self, i: usize) -> (r: &String)
        requires
            i < self.bindings().len(),
        ensures
            *r == self.bindings()[i as int].0,
    {
        &self.entries[i].0
    }

    /// Value of the binding at position `i`.
    pub fn value_at(&self, i: usize) -> (r: &V)
        requires
            i < self.bindings().len(),
        ensures
            *r == self.bindings()[i as int].1,
    {
        &self.entries[i].1
    }

    /// The value bound to `key`, if any.
    pub open spec fn at(&self, key: Seq<char>) -> Option<V> {
        bound_value(self.bindings(), key)
    }

    /// The bindings, in the order they were first made.
    pub closed spec fn bindings(&self) -> Seq<(String, V)> {
        self.entries@
    }

    pub open spec fn has(&self, key: Seq<char>) -> bool {
        self.at(key) is Some
    }

    pub fn new() -> (r: Self)
        ensures
            forall|k: Seq<char>| #[trigger] r.at(k) is None,
            r.bindings().len() == 0,
    {
        Keyed { entries: Vec::new() }
    }

    /// Number of bindings held.
    pub fn len(&self) -> (r: usize)
        ensures
            r == self.bindings().len(),
            keys_distinct(self.bindings()),
    {
        proof {
            use_type_invariant(self);
        }
        self.entries.len()
    }

    /// Looks up `key` by exact, case-sensitive comparison.
    pub fn get(&self, key: &str) -> (r: Option<&V>)
        ensures
            match r {
                Some(v) => self.at(key@) == Some(*v),
                None => self.at(key@) is None,
            },
    {
        match find_binding(&self.entries, key) {
            Some(i) => Some(&self.entries[i].1),
            None => None,
        }
    }

    pub fn contains_key(&self, key: &str) -> (r: bool)
        ensures
            r == self.has(key@),
    {
        find_binding(&self.entries, key).is_some()
    }

    /// Binds `key` to `value`, replacing an earlier binding of the same key.
    pub fn insert(&mut self, key: String, value: V)
        ensures
            forall|k: Seq<char>| #[trigger]
                final(self).at(k) == if k == key@ {
                    Some(value)
                } else {
                    old(self).at(k)
                },
            forall|k: Seq<char>| #[trigger] old(self).has(k) ==> final(self).has(k),
            old(self).has(key@) ==> final(self).bindings().len() == old(self).bindings().len(),
            !old(self).has(key@) ==> final(self).bindings().len() == old(self).bindings().len()
                + 1,
            keys_distinct(final(self).bindings()),
    {
        proof {
            use_type_invariant(&*self);
        }
        let mut entries: Vec<(String, V)> = Vec::new();
        std::mem::swap(&mut self.entries, &mut entries);
        let ghost s = entries@;
        let ghost kv = key@;
        let ghost x = (key, value);
        match find_binding(&entries, key.as_str()) {
            Some(i) => {
                proof {
                    assert(keys_distinct(s.update(i as int, x)));
                }
                entries.set(i, (key, value));
                proof {
                    assert forall|k: Seq<char>|
                        bound_value(entries@, k) == if k == kv {
                            Some(value)
                        } else {
                            bound_value(s, k)
                        } by {
                        lemma_bound_value_update(s, i as int, x, k);
                    }
                }
            },
            None => {
                proof {
                    lemma_bound_value_has_index(s, kv);
                    assert(keys_distinct(s.push(x)));
                }
                entries.push((key, value));
                proof {
                    assert forall|k: Seq<char>|
                        bound_value(entries@, k) == if k == kv {
                            Some(value)
                        } else {
                            bound_value(s, k)
                        } by {
                        lemma_bound_value_push(s, x, k);
                    }
                }
            },
        }
        std::mem::swap(&mut self.entries, &mut entries);
    }

    /// Every binding made by `other`, applied on top of this mapping.
    pub fn extend(&mut self, other: Keyed<V>)
        ensures
            forall|k: Seq<char>| #[trigger]
                final(self).at(k) == match other.at(k) {
                    Some(v) => Some(v),
                    None => old(self).at(k),
                },
    {
        let ghost start = *self;
        let ghost all = other.entries@;
        let mut rest = other.entries;
        let ghost mut taken: int = 0;
        while rest.len() > 0
            invariant
                0 <= taken <= all.len(),
                rest@ == all.subrange(taken, all.len() as int),
                forall|k: Seq<char>| #[trigger]
                    self.at(k) == match bound_value(all.subrange(0, taken), k) {
                        Some(v) => Some(v),
                        None => start.at(k),
                    },
            decreases rest.len(),
        {
            let x = rest.remove(0);
            proof {
                assert(all.subrange(0, taken + 1) =~= all.subrange(0, taken).push(x));
                assert forall|k: Seq<char>|
                    bound_value(all.subrange(0, taken + 1), k) == if x.0@ == k {
                        Some(x.1)
                    } else {
                        bound_value(all.subrange(0, taken), k)
                    } by {
                    lemma_bound_value_push(all.subrange(0, taken), x, k);
                }
                taken = taken + 1;
                assert(rest@ =~= all.subrange(taken, all.len() as int));
            }
            self.insert(x.0, x.1);
        }
        assert(all.subrange(0, taken) =~= all);
    }
}

impl<V: Clone> Clone for Keyed<V> {
    /// The same keys, in the same order, each with a clone of its value.
    fn clone(&self) -> (r: Self)
        ensures
            r.bindings().len() == self.bindings().len(),
            forall|i: int|
                0 <= i < self.bindings().len() ==> (#[trigger] r.bindings()[i]).0
                    == self.bindings()[i].0 && cloned::<V>(self.bindings()[i].1, r.bindings()[i].1),
    {
        proof {
            use_type_invariant(self);
        }
        let mut out: Vec<(String, V)> = Vec::new();
        let mut i: usize = 0;
        while i < self.entries.len()
            invariant
                keys_distinct(self.entries@),
                i <= self.entries@.len(),
                out@.len() == i,
                forall|j: int|
                    0 <= j < i ==> (#[trigger] out@[j]).0 == self.entries@[j].0 && cloned::<V>(
                        self.entries@[j].1,
                        out@[j].1,
                    ),
            decreases self.entries@.len() - i,
        {
            let k = self.entries[i].0.clone();
            let v = self.entries[i].1.clone();
            out.push((k, v));
            i = i + 1;
        }
        proof {
            assert forall|a: int, b: int| 0 <= a < b < out@.len() implies out@[a].0@ != out@[b].0@ by {
                assert(out@[a].0 == self.entries@[a].0);
                assert(out@[b].0 == self.entries@[b].0);
            }
        }
        Keyed { entries: out }
    }
}

} // verus!

use vstd::prelude::*;

verus! {

/// Header fields: each name at most once, in the order in which the names
/// were first inserted.
pub struct Headers {
    entries: Vec<(Vec<u8>, Vec<u8>)>,
}

/// The entries of `s` as a map from name to value; names are distinct.
pub open spec fn entries_map(s: Seq<(Seq<u8>, Seq<u8>)>) -> Map<Seq<u8>, Seq<u8>> {
    Map::new(
        |k: Seq<u8>| exists|i: int| 0 <= i < s.len() && s[i].0 == k,
        |k: Seq<u8>| s[choose|i: int| 0 <= i < s.len() && s[i].0 == k].1,
    )
}

/// No name occurs twice.
pub open spec fn distinct_names(s: Seq<(Seq<u8>, Seq<u8>)>) -> bool {
    forall|i: int, j: int| 0 <= i < s.len() && 0 <= j < s.len() && i != j ==> s[i].0 != s[j].0
}

/// The entries after setting `k` to `v`: an entry named `k` is replaced in
/// place, else the new entry goes last.
pub open spec fn entries_after_insert(s: Seq<(Seq<u8>, Seq<u8>)>, k: Seq<u8>, v: Seq<u8>) -> Seq<
    (Seq<u8>, Seq<u8>),
> {
    if exists|i: int| 0 <= i < s.len() && s[i].0 == k {
        s.update(choose|i: int| 0 <= i < s.len() && s[i].0 == k, (k, v))
    } else {
        s.push((k, v))
    }
}

/// Two byte strings are equal.
fn bytes_eq(a: &[u8], b: &[u8]) -> (res: bool)
    ensures
        res == (a@ == b@),
{
    if a.len() != b.len() {
        return false;
    }
    let mut i: usize = 0;
    while i < a.len()
        invariant
            a@.len() == b@.len(),
            i <= a@.len(),
            forall|j: int| 0 <= j < i ==> a@[j] == b@[j],
        decreases a@.len() - i,
    {
        if a[i] != b[i] {
            return false;
        }
        i = i + 1;
    }
    assert(a@ =~= b@);
    true
}

impl Headers {
    #[verifier::type_invariant]
    spec fn names_distinct(self) -> bool {
        distinct_names(self.entry_seq())
    }

    /// The entries, as plain byte sequences, in order.
    pub closed spec fn entry_seq(self) -> Seq<(Seq<u8>, Seq<u8>)> {
        self.entries@.map_values(|e: (Vec<u8>, Vec<u8>)| (e.0@, e.1@))
    }

    /// An empty set of header fields.
    pub fn new() -> (h: Headers)
        ensures
            h@ == Map::<Seq<u8>, Seq<u8>>::empty(),
            h.entry_seq() == Seq::<(Seq<u8>, Seq<u8>)>::empty(),
    {
        let h = Headers { entries: Vec::new() };
        assert(h.entry_seq() =~= Seq::<(Seq<u8>, Seq<u8>)>::empty());
        assert(h@ =~= Map::<Seq<u8>, Seq<u8>>::empty());
        h
    }

    /// The number of fields.
    pub fn len(&self) -> (n: usize)
        ensures
            n == self.entry_seq().len(),
            distinct_names(self.entry_seq()),
    {
        proof {
            use_type_invariant(self);
        }
        self.entries.len()
    }

    /// The name and value of the `i`-th field.
    pub fn entry(&self, i: usize) -> (e: (&[u8], &[u8]))
        requires
            i < self.entry_seq().len(),
        ensures
            e.0@ == self.entry_seq()[i as int].0,
            e.1@ == self.entry_seq()[i as int].1,
    {
        let e = &self.entries[i];
        (e.0.as_slice(), e.1.as_slice())
    }

    /// The position of the field named `key`, if there is one.
    fn position(&self, key: &[u8]) -> (res: Option<usize>)
        ensures
            res matches Some(i) ==> i < self.entry_seq().len() && self.entry_seq()[i as int].0
                == key@,
            res is None ==> forall|i: int|
                0 <= i < self.entry_seq().len() ==> self.entry_seq()[i].0 != key@,
    {
        let mut i: usize = 0;
        while i < self.entries.len()
            invariant
                i <= self.entry_seq().len(),
                self.entry_seq().len() == self.entries@.len(),
                forall|j: int| 0 <= j < i ==> self.entry_seq()[j].0 != key@,
            decreases self.entries@.len() - i,
        {
            if bytes_eq(self.entries[i].0.as_slice(), key) {
                return Some(i);
            }
            i = i + 1;
        }
        None
    }

    /// The value of the field named `key`.
    pub fn get(&self, key: &[u8]) -> (res: Option<&[u8]>)
        ensures
            res matches Some(v) ==> self@.contains_key(key@) && v@ == self@[key@],
            res is None ==> !self@.contains_key(key@),
    {
        proof {
            use_type_invariant(self);
        }
        match self.position(key) {
            Some(i) => {
                proof {
                    let s = self.entry_seq();
                    let j = choose|j: int| 0 <= j < s.len() && s[j].0 == key@;
                    assert(j == i);
                }
                Some(self.entries[i].1.as_slice())
            },
            None => None,
        }
    }

    /// Sets the field named `key` to `value`: an existing field keeps its
    /// place, a new one goes last.
    pub fn insert(&mut self, key: Vec<u8>, value: Vec<u8>)
        ensures
            final(self)@ == old(self)@.insert(key@, value@),
            final(self).entry_seq() == entries_after_insert(old(self).entry_seq(), key@, value@),
    {
        proof {
            use_type_invariant(&*self);
        }
        let ghost s0 = self.entry_seq();
        let found = self.position(key.as_slice());
        let mut es: Vec<(Vec<u8>, Vec<u8>)> = Vec::new();
        std::mem::swap(&mut es, &mut self.entries);
        match found {
            Some(i) => {
                es.set(i, (key, value));
                let ghost s1 = es@.map_values(|e: (Vec<u8>, Vec<u8>)| (e.0@, e.1@));
                proof {
                    let c = choose|j: int| 0 <= j < s0.len() && s0[j].0 == key@;
                    assert(c == i);
                    assert(s1 =~= s0.update(i as int, (key@, value@)));
                    assert(distinct_names(s1));
                    assert forall|k: Seq<u8>| #![auto] entries_map(s1).contains_key(k)
                        == old(self)@.insert(key@, value@).contains_key(k) by {
                        if k != key@ {
                            if entries_map(s0).contains_key(k) {
                                let j = choose|j: int| 0 <= j < s0.len() && s0[j].0 == k;
                                assert(s1[j].0 == k);
                            }
                        } else {
                            assert(s1[i as int].0 == k);
                        }
                    }
                    assert forall|k: Seq<u8>| #![auto] entries_map(s1).contains_key(k) implies
                        entries_map(s1)[k] == old(self)@.insert(key@, value@)[k] by {
                        let j1 = choose|j: int| 0 <= j < s1.len() && s1[j].0 == k;
                        if k != key@ {
                            assert(s0[j1].0 == k);
                            let j0 = choose|j: int| 0 <= j < s0.len() && s0[j].0 == k;
                            assert(j0 == j1);
                        } else {
                            assert(j1 == i);
                        }
                    }
                    assert(entries_map(s1) =~= old(self)@.insert(key@, value@));
                }
                self.entries = es;
            },
            None => {
                es.push((key, value));
                let ghost s1 = es@.map_values(|e: (Vec<u8>, Vec<u8>)| (e.0@, e.1@));
                proof {
                    assert(s1 =~= s0.push((key@, value@)));
                    assert(distinct_names(s1));
                    assert forall|k: Seq<u8>| #![auto] entries_map(s1).contains_key(k)
                        == old(self)@.insert(key@, value@).contains_key(k) by {
                        if k != key@ {
                            if entries_map(s0).contains_key(k) {
                                let j = choose|j: int| 0 <= j < s0.len() && s0[j].0 == k;
                                assert(s1[j].0 == k);
                            }
                        } else {
                            assert(s1[s0.len() as int].0 == k);
                        }
                    }
                    assert forall|k: Seq<u8>| #![auto] entries_map(s1).contains_key(k) implies
                        entries_map(s1)[k] == old(self)@.insert(key@, value@)[k] by {
                        let j1 = choose|j: int| 0 <= j < s1.len() && s1[j].0 == k;
                        if k != key@ {
                            assert(j1 < s0.len());
                            assert(s0[j1].0 == k);
                            let j0 = choose|j: int| 0 <= j < s0.len() && s0[j].0 == k;
                            assert(j0 == j1);
                        } else {
                            assert(j1 == s0.len());
                        }
                    }
                    assert(entries_map(s1) =~= old(self)@.insert(key@, value@));
                }
                self.entries = es;
            },
        }
    }

    /// Removes every field.
    pub fn clear(&mut self)
        ensures
            final(self)@ == Map::<Seq<u8>, Seq<u8>>::empty(),
            final(self).entry_seq() == Seq::<(Seq<u8>, Seq<u8>)>::empty(),
    {
        self.entries = Vec::new();
        assert(self.entry_seq() =~= Seq::<(Seq<u8>, Seq<u8>)>::empty());
        assert(self@ =~= Map::<Seq<u8>, Seq<u8>>::empty());
    }
}

impl View for Headers {
    type V = Map<Seq<u8>, Seq<u8>>;

    open spec fn view(&self) -> Map<Seq<u8>, Seq<u8>> {
        entries_map(self.entry_seq())
    }
}

} // verus!

use vstd::prelude::*;

verus! {

/// A set of paths (strings), kept in the order in which they were first added.
#[derive(Debug)]
pub struct PathSet {
    items: Vec<String>,
}

/// The views of a sequence of strings.
pub open spec fn views(s: Seq<String>) -> Seq<Seq<char>> {
    s.map_values(|x: String| x@)
}

/// Appends copies of the strings of `src` to `dst`.
pub fn extend_strings(dst: &mut Vec<String>, src: &Vec<String>)
    ensures
        views(final(dst)@) == views(old(dst)@) + views(src@),
{
    let ghost d0 = views(dst@);
    let mut i: usize = 0;
    while i < src.len()
        invariant
            i <= src@.len(),
            views(dst@) == d0 + views(src@).take(i as int),
        decreases src@.len() - i,
    {
        let item = src[i].clone();
        let ghost before = views(dst@);
        dst.push(item);
        proof {
            assert(views(dst@) =~= before.push(src@[i as int]@));
            assert(views(src@).take(i + 1) =~= views(src@).take(i as int).push(src@[i as int]@));
        }
        i = i + 1;
    }
    assert(views(src@).take(src@.len() as int) =~= views(src@));
}

impl View for PathSet {
    type V = Set<Seq<char>>;

    open spec fn view(&self) -> Set<Seq<char>> {
        self.order().to_set()
    }
}

impl PathSet {
    /// The members, in the order in which they were added.
    pub closed spec fn order(&self) -> Seq<Seq<char>> {
        views(self.items@)
    }

    /// No member occurs twice.
    #[verifier::type_invariant]
    closed spec fn wf(&self) -> bool {
        self.order().no_duplicates()
    }

    /// An empty set.
    pub fn new() -> (r: PathSet)
        ensures
            r.order() == Seq::<Seq<char>>::empty(),
            r@ == Set::<Seq<char>>::empty(),
    {
        let r = PathSet { items: Vec::new() };
        assert(r.order() =~= Seq::<Seq<char>>::empty());
        r
    }

    /// The number of members.
    pub fn len(&self) -> (n: usize)
        ensures
            n == self.order().len(),
    {
        self.items.len()
    }

    /// Whether there is no member.
    pub fn is_empty(&self) -> (b: bool)
        ensures
            b == (self.order().len() == 0),
            b == (self@ == Set::<Seq<char>>::empty()),
    {
        proof {
            if self.order().len() > 0 {
                assert(self@.contains(self.order()[0]));
            } else {
                assert(self@ =~= Set::<Seq<char>>::empty());
            }
        }
        self.items.len() == 0
    }

    /// The members in order.
    pub fn items(&self) -> (r: &Vec<String>)
        ensures
            views(r@) == self.order(),
    {
        &self.items
    }

    fn index_of(&self, path: &str) -> (r: Option<usize>)
        ensures
            match r {
                Some(i) => i < self.order().len() && self.order()[i as int] == path@,
                None => !self.order().contains(path@),
            },
    {
        let mut i: usize = 0;
        while i < self.items.len()
            invariant
                i <= self.items@.len(),
                forall|j: int| 0 <= j < i ==> self.order()[j] != path@,
            decreases self.items@.len() - i,
        {
            if crate::text::str_eq(self.items[i].as_str(), path) {
                return Some(i);
            }
            i = i + 1;
        }
        None
    }

    /// Whether `path` is a member.
    pub fn contains(&self, path: &str) -> (b: bool)
        ensures
            b == self@.contains(path@),
    {
        self.index_of(path).is_some()
    }

    /// Adds `path` (at the end of the order) unless it is a member already.
    pub fn insert(&mut self, path: &str)
        ensures
            final(self)@ == old(self)@.insert(path@),
            old(self)@.contains(path@) ==> final(self).order() == old(self).order(),
            !old(self)@.contains(path@) ==> final(self).order() == old(self).order().push(path@),
    {
        proof { use_type_invariant(&*self); }
        if self.index_of(path).is_none() {
            let mut items = self.items.clone();
            let ghost before = views(items@);
            items.push(path.to_string());
            proof {
                assert(views(items@) =~= before.push(path@));
                assert(views(items@).no_duplicates());
                assert(views(items@).to_set() =~= before.to_set().insert(path@)) by {
                    assert forall|x: Seq<char>| views(items@).to_set().contains(x) <==> before.to_set().insert(path@).contains(x) by {
                        if views(items@).contains(x) && x != path@ {
                            let k = choose|k: int| 0 <= k < views(items@).len() && views(items@)[k] == x;
                            assert(before[k] == x);
                        }
                        if before.contains(x) {
                            let k = choose|k: int| 0 <= k < before.len() && before[k] == x;
                            assert(views(items@)[k] == x);
                        }
                        if x == path@ {
                            assert(views(items@)[before.len() as int] == x);
                        }
                    }
                }
            }
            *self = PathSet { items };
        }
    }

    /// Removes `path` if it is a member; the others keep their order.
    pub fn remove(&mut self, path: &str)
        ensures
            final(self)@ == old(self)@.remove(path@),
    {
        proof { use_type_invariant(&*self); }
        match self.index_of(path) {
            Some(i) => {
                let mut items = self.items.clone();
                let ghost before = views(items@);
                items.remove(i);
                proof {
                    assert(views(items@) =~= before.remove(i as int));
                    assert(views(items@).no_duplicates());
                    assert(views(items@).to_set() =~= before.to_set().remove(path@)) by {
                        assert forall|x: Seq<char>| views(items@).to_set().contains(x) <==> before.to_set().remove(path@).contains(x) by {
                            if views(items@).contains(x) {
                                let k = choose|k: int| 0 <= k < views(items@).len() && views(items@)[k] == x;
                                if k < i { assert(before[k] == x); } else { assert(before[k + 1] == x); }
                            }
                            if before.to_set().remove(path@).contains(x) {
                                let k = choose|k: int| 0 <= k < before.len() && before[k] == x;
                                if k < i { assert(views(items@)[k] == x); } else { assert(views(items@)[k - 1] == x); }
                            }
                        }
                    }
                }
                *self = PathSet { items };
            },
            None => {
                assert(old(self)@ =~= old(self)@.remove(path@));
            },
        }
    }
}

/// A map from paths to texts; its keys are kept in the order in which they were first added.
#[derive(Debug)]
pub struct PathMap {
    keys: Vec<String>,
    vals: Vec<String>,
}

/// The map that pairs `keys[i]` with `vals[i]`.
pub open spec fn map_of(keys: Seq<Seq<char>>, vals: Seq<Seq<char>>) -> Map<Seq<char>, Seq<char>> {
    Map::new(|k: Seq<char>| keys.contains(k), |k: Seq<char>| vals[keys.index_of(k)])
}

/// With distinct keys, `map_of` pairs each key with the value at its position.
pub proof fn lemma_map_entry(keys: Seq<Seq<char>>, vals: Seq<Seq<char>>, i: int)
    requires
        keys.no_duplicates(),
        0 <= i < keys.len(),
    ensures
        map_of(keys, vals).contains_key(keys[i]),
        map_of(keys, vals)[keys[i]] == vals[i],
{
    lemma_index_of_unique(keys, i);
}

impl Clone for PathSet {
    /// A copy with the same members in the same order.
    fn clone(&self) -> (r: PathSet)
        ensures
            r.order() == self.order(),
            r@ == self@,
    {
        proof { use_type_invariant(self); }
        let items = self.items.clone();
        assert(views(items@) =~= views(self.items@));
        PathSet { items }
    }
}

impl View for PathMap {
    type V = Map<Seq<char>, Seq<char>>;

    open spec fn view(&self) -> Map<Seq<char>, Seq<char>> {
        map_of(self.key_order(), self.value_order())
    }
}

impl PathMap {
    /// The keys, in the order in which they were added.
    pub closed spec fn key_order(&self) -> Seq<Seq<char>> {
        views(self.keys@)
    }

    /// The values, in the order of their keys.
    pub closed spec fn value_order(&self) -> Seq<Seq<char>> {
        views(self.vals@)
    }

    /// One value per key, and no key twice.
    #[verifier::type_invariant]
    closed spec fn wf(&self) -> bool {
        &&& self.keys@.len() == self.vals@.len()
        &&& self.key_order().no_duplicates()
    }

    /// An empty map.
    pub fn new() -> (r: PathMap)
        ensures
            r@ == Map::<Seq<char>, Seq<char>>::empty(),
            r.key_order() == Seq::<Seq<char>>::empty(),
    {
        let r = PathMap { keys: Vec::new(), vals: Vec::new() };
        assert(r.key_order() =~= Seq::<Seq<char>>::empty());
        assert(r@ =~= Map::<Seq<char>, Seq<char>>::empty());
        r
    }

    fn index_of(&self, key: &str) -> (r: Option<usize>)
        ensures
            match r {
                Some(i) => i < self.key_order().len() && self.key_order()[i as int] == key@,
                None => !self.key_order().contains(key@),
            },
    {
        let mut i: usize = 0;
        while i < self.keys.len()
            invariant
                i <= self.keys@.len(),
                forall|j: int| 0 <= j < i ==> self.key_order()[j] != key@,
            decreases self.keys@.len() - i,
        {
            if crate::text::str_eq(self.keys[i].as_str(), key) {
                return Some(i);
            }
            i = i + 1;
        }
        None
    }

    /// Whether `key` has a value.
    pub fn contains_key(&self, key: &str) -> (b: bool)
        ensures
            b == self@.contains_key(key@),
    {
        self.index_of(key).is_some()
    }

    /// The value of `key`, if it has one.
    pub fn get(&self, key: &str) -> (r: Option<&String>)
        ensures
            match r {
                Some(v) => self@.contains_key(key@) && self@[key@] == v@,
                None => !self@.contains_key(key@),
            },
    {
        proof { use_type_invariant(self); }
        match self.index_of(key) {
            Some(i) => {
                proof { lemma_map_entry(self.key_order(), self.value_order(), i as int); }
                Some(&self.vals[i])
            },
            None => None,
        }
    }

    /// Gives `key` the value `value`; a new key goes to the end of the key order.
    pub fn insert(&mut self, key: String, value: String)
        ensures
            final(self)@ == old(self)@.insert(key@, value@),
    {
        proof { use_type_invariant(&*self); }
        let mut keys = self.keys.clone();
        let mut vals = self.vals.clone();
        let ghost k0 = views(keys@);
        let ghost v0 = views(vals@);
        let ghost m0 = map_of(k0, v0);
        match self.index_of(key.as_str()) {
            Some(i) => {
                vals.set(i, value);
                proof {
                    let k1 = views(keys@);
                    let v1 = views(vals@);
                    assert(k1 =~= k0);
                    assert(v1 =~= v0.update(i as int, value@));
                    assert(map_of(k1, v1) =~= m0.insert(key@, value@)) by {
                        assert forall|k: Seq<char>| #![auto] map_of(k1, v1).contains_key(k) implies map_of(k1, v1)[k] == m0.insert(key@, value@)[k] by {
                            let j = k1.index_of(k);
                            lemma_map_entry(k1, v1, j);
                            lemma_map_entry(k0, v0, j);
                        }
                    }
                }
                *self = PathMap { keys, vals };
            },
            None => {
                keys.push(key);
                vals.push(value);
                proof {
                    let k1 = views(keys@);
                    let v1 = views(vals@);
                    assert(k1 =~= k0.push(key@));
                    assert(v1 =~= v0.push(value@));
                    assert(k1.no_duplicates());
                    assert(map_of(k1, v1) =~= m0.insert(key@, value@)) by {
                        assert forall|k: Seq<char>| map_of(k1, v1).contains_key(k) <==> m0.insert(key@, value@).contains_key(k) by {
                            if k1.contains(k) && k != key@ {
                                let j = choose|j: int| 0 <= j < k1.len() && k1[j] == k;
                                assert(k0[j] == k);
                            }
                            if k0.contains(k) {
                                let j = choose|j: int| 0 <= j < k0.len() && k0[j] == k;
                                assert(k1[j] == k);
                            }
                            if k == key@ {
                                assert(k1[k0.len() as int] == k);
                            }
                        }
                        assert forall|k: Seq<char>| #![auto] map_of(k1, v1).contains_key(k) implies map_of(k1, v1)[k] == m0.insert(key@, value@)[k] by {
                            let j = k1.index_of(k);
                            lemma_map_entry(k1, v1, j);
                            if j < k0.len() {
                                lemma_map_entry(k0, v0, j);
                            }
                        }
                    }
                }
                *self = PathMap { keys, vals };
            },
        }
    }

    /// Removes `key` and its value, if it has one; the other keys keep their order.
    pub fn remove(&mut self, key: &str)
        ensures
            final(self)@ == old(self)@.remove(key@),
    {
        proof { use_type_invariant(&*self); }
        match self.index_of(key) {
            Some(i) => {
                let mut keys = self.keys.clone();
                let mut vals = self.vals.clone();
                let ghost k0 = views(keys@);
                let ghost v0 = views(vals@);
                let ghost m0 = map_of(k0, v0);
                keys.remove(i);
                vals.remove(i);
                proof {
                    let k1 = views(keys@);
                    let v1 = views(vals@);
                    assert(k1 =~= k0.remove(i as int));
                    assert(v1 =~= v0.remove(i as int));
                    assert(k1.no_duplicates());
                    assert(map_of(k1, v1) =~= m0.remove(key@)) by {
                        assert forall|k: Seq<char>| map_of(k1, v1).contains_key(k) <==> m0.remove(key@).contains_key(k) by {
                            if k1.contains(k) {
                                let j = choose|j: int| 0 <= j < k1.len() && k1[j] == k;
                                if j < i { assert(k0[j] == k); } else { assert(k0[j + 1] == k); }
                            }
                            if k0.contains(k) && k != key@ {
                                let j = choose|j: int| 0 <= j < k0.len() && k0[j] == k;
                                if j < i { assert(k1[j] == k); } else { assert(k1[j - 1] == k); }
                            }
                        }
                        assert forall|k: Seq<char>| #![auto] map_of(k1, v1).contains_key(k) implies map_of(k1, v1)[k] == m0.remove(key@)[k] by {
                            let j = k1.index_of(k);
                            lemma_map_entry(k1, v1, j);
                            if j < i { lemma_map_entry(k0, v0, j); } else { lemma_map_entry(k0, v0, j + 1); }
                        }
                    }
                }
                *self = PathMap { keys, vals };
            },
            None => {
                assert(old(self)@ =~= old(self)@.remove(key@));
            },
        }
    }

    /// The keys in order.
    pub fn keys(&self) -> (r: &Vec<String>)
        ensures
            views(r@) == self.key_order(),
    {
        &self.keys
    }
}

/// In a sequence without duplicates, the first position of the element at `i` is `i`.
pub proof fn lemma_index_of_unique(s: Seq<Seq<char>>, i: int)
    requires
        s.no_duplicates(),
        0 <= i < s.len(),
    ensures
        s.index_of(s[i]) == i,
{
    assert(0 <= i < s.len() && s[i] == s[i]);
    let j = s.index_of(s[i]);
    assert(0 <= j < s.len() && s[j] == s[i]);
}

impl Clone for PathMap {
    /// A copy with the same entries in the same order.
    fn clone(&self) -> (r: PathMap)
        ensures
            r.key_order() == self.key_order(),
            r.value_order() == self.value_order(),
            r@ == self@,
    {
        proof { use_type_invariant(self); }
        let keys = self.keys.clone();
        let vals = self.vals.clone();
        assert(views(keys@) =~= views(self.keys@));
        assert(views(vals@) =~= views(self.vals@));
        PathMap { keys, vals }
    }
}

} // verus!

//! A map and a set for small numbers of entries, kept in vectors.
use crate::ids::Ident;
use vstd::prelude::*;

verus! {

/// Whether no item occurs twice.
pub open spec fn distinct<A>(s: Seq<A>) -> bool {
    forall|i: int, j: int| 0 <= i < j < s.len() ==> #[trigger] s[i] != #[trigger] s[j]
}

/// What a sequence holds once an item was put behind it.
pub proof fn lemma_push_contains<A>(s: Seq<A>, a: A, x: A)
    ensures
        s.push(a).contains(x) <==> s.contains(x) || x == a,
{
    if s.contains(x) {
        let i = choose|i: int| 0 <= i < s.len() && s[i] == x;
        assert(s.push(a)[i] == x);
    }
    if x == a {
        assert(s.push(a)[s.len() as int] == x);
    }
}

/// What the first items of a sequence are, with one more.
pub proof fn lemma_take_one_more<A>(s: Seq<A>, i: int)
    requires
        0 <= i < s.len(),
    ensures
        s.take(i + 1).drop_last() == s.take(i),
        s.take(i + 1).last() == s[i],
        s.take(i + 1).to_set() == s.take(i).to_set().insert(s[i]),
{
    assert(s.take(i + 1).drop_last() =~= s.take(i));
    assert(s.take(i + 1) =~= s.take(i).push(s[i]));
    assert forall|x: A| s.take(i + 1).to_set().contains(x) <==> s.take(i).to_set().insert(s[i]).contains(x) by {
        lemma_push_contains(s.take(i), s[i], x);
    }
    assert(s.take(i + 1).to_set() =~= s.take(i).to_set().insert(s[i]));
}

/// The first place of an item that occurs.
spec fn place<A>(s: Seq<A>, a: A) -> int {
    choose|i: int| 0 <= i < s.len() && #[trigger] s[i] == a
}

/// The map that sends each key to the view of the value beside it.
spec fn pairing<K, V: View>(keys: Seq<K>, vals: Seq<V>) -> Map<K, V::V> {
    Map::new(
        |k: K| exists|i: int| 0 <= i < keys.len() && #[trigger] keys[i] == k,
        |k: K| vals[place(keys, k)]@,
    )
}

proof fn lemma_pairing_at<K, V: View>(keys: Seq<K>, vals: Seq<V>, i: int)
    requires
        distinct(keys),
        0 <= i < keys.len(),
    ensures
        pairing(keys, vals).contains_key(keys[i]),
        pairing(keys, vals)[keys[i]] == vals[i]@,
{
    let j = place(keys, keys[i]);
    assert(0 <= j < keys.len() && keys[j] == keys[i]);
}

proof fn lemma_pairing_update<K, V: View>(keys: Seq<K>, vals: Seq<V>, i: int, v: V)
    requires
        distinct(keys),
        keys.len() == vals.len(),
        0 <= i < keys.len(),
    ensures
        pairing(keys, vals.update(i, v)) == pairing(keys, vals).insert(keys[i], v@),
{
    let new = pairing(keys, vals.update(i, v));
    let old_map = pairing(keys, vals).insert(keys[i], v@);
    assert forall|k: K| new.contains_key(k) implies new[k] == old_map[k] by {
        let j = choose|j: int| 0 <= j < keys.len() && #[trigger] keys[j] == k;
        lemma_pairing_at(keys, vals, j);
        lemma_pairing_at(keys, vals.update(i, v), j);
    }
    assert(new =~= old_map);
}

proof fn lemma_pairing_push<K, V: View>(keys: Seq<K>, vals: Seq<V>, k: K, v: V)
    requires
        distinct(keys),
        keys.len() == vals.len(),
        !pairing(keys, vals).contains_key(k),
    ensures
        distinct(keys.push(k)),
        pairing(keys.push(k), vals.push(v)) == pairing(keys, vals).insert(k, v@),
{
    let ks = keys.push(k);
    let vs = vals.push(v);
    assert(forall|i: int| 0 <= i < keys.len() ==> #[trigger] keys[i] != k);
    assert(distinct(ks));
    let new = pairing(ks, vs);
    let old_map = pairing(keys, vals).insert(k, v@);
    assert forall|x: K| new.contains_key(x) <==> old_map.contains_key(x) by {
        if x == k {
            assert(ks[keys.len() as int] == k);
        } else if pairing(keys, vals).contains_key(x) {
            let j = choose|j: int| 0 <= j < keys.len() && #[trigger] keys[j] == x;
            assert(ks[j] == x);
        } else if new.contains_key(x) {
            let j = choose|j: int| 0 <= j < ks.len() && #[trigger] ks[j] == x;
            assert(keys[j] == x);
        }
    }
    assert forall|x: K| new.contains_key(x) implies new[x] == old_map[x] by {
        let j = choose|j: int| 0 <= j < ks.len() && #[trigger] ks[j] == x;
        lemma_pairing_at(ks, vs, j);
        if j < keys.len() {
            lemma_pairing_at(keys, vals, j);
        }
    }
    assert(new =~= old_map);
}

proof fn lemma_pairing_remove<K, V: View>(keys: Seq<K>, vals: Seq<V>, i: int)
    requires
        distinct(keys),
        keys.len() == vals.len(),
        0 <= i < keys.len(),
    ensures
        distinct(keys.remove(i)),
        pairing(keys.remove(i), vals.remove(i)) == pairing(keys, vals).remove(keys[i]),
{
    let ks = keys.remove(i);
    let vs = vals.remove(i);
    assert(forall|j: int| 0 <= j < ks.len() ==> #[trigger] ks[j] == keys[if j < i { j } else { j + 1 }]);
    assert(distinct(ks));
    let new = pairing(ks, vs);
    let old_map = pairing(keys, vals).remove(keys[i]);
    assert forall|x: K| old_map.contains_key(x) implies new.contains_key(x) by {
        let j = choose|j: int| 0 <= j < keys.len() && #[trigger] keys[j] == x;
        if j < i {
            assert(ks[j] == x);
        } else {
            assert(ks[j - 1] == x);
        }
    }
    assert forall|x: K| new.contains_key(x) implies old_map.contains_key(x) && new[x] == old_map[x] by {
        let j = choose|j: int| 0 <= j < ks.len() && #[trigger] ks[j] == x;
        lemma_pairing_at(ks, vs, j);
        lemma_pairing_at(keys, vals, if j < i { j } else { j + 1 });
    }
    assert(new =~= old_map);
}

struct Columns<K, V> {
    keys: Vec<K>,
    vals: Vec<V>,
}

/// A map from identifiers to values. No key occurs twice.
pub struct ListMap<K: Ident, V: View> {
    columns: Columns<K, V>,
}

impl<K: Ident, V: View> ListMap<K, V> {
    #[verifier::type_invariant]
    spec fn well_formed(&self) -> bool {
        distinct(self.columns.keys@) && self.columns.keys@.len() == self.columns.vals@.len()
    }

    /// The keys, in the order in which the map is walked.
    pub closed spec fn keys(&self) -> Seq<K> {
        self.columns.keys@
    }

    /// What the map holds.
    pub closed spec fn contents(&self) -> Map<K, V::V> {
        pairing(self.columns.keys@, self.columns.vals@)
    }
}

impl<K: Ident, V: View> View for ListMap<K, V> {
    type V = Map<K, V::V>;

    open spec fn view(&self) -> Map<K, V::V> {
        self.contents()
    }
}

impl<K: Ident, V: View> ListMap<K, V> {
    /// An empty map.
    pub fn new() -> (r: Self)
        ensures
            r@ == Map::<K, V::V>::empty(),
    {
        let r = ListMap { columns: Columns { keys: Vec::new(), vals: Vec::new() } };
        assert(r@ =~= Map::<K, V::V>::empty());
        r
    }

    /// How many keys the map has.
    pub fn len(&self) -> (r: usize)
        ensures
            r == self.keys().len(),
            distinct(self.keys()),
            forall|k: K| self.keys().contains(k) <==> self@.contains_key(k),
    {
        proof {
            use_type_invariant(self);
            assert forall|k: K| self.keys().contains(k) <==> self@.contains_key(k) by {
                if self.keys().contains(k) {
                    let i = choose|i: int| 0 <= i < self.keys().len() && self.keys()[i] == k;
                    lemma_pairing_at(self.columns.keys@, self.columns.vals@, i);
                }
            }
        }
        self.columns.keys.len()
    }

    /// The key and the value at a place of the walk.
    pub fn at(&self, i: usize) -> (r: (K, &V))
        requires
            i < self.keys().len(),
        ensures
            r.0 == self.keys()[i as int],
            self@.contains_key(r.0),
            r.1@ == self@[r.0],
    {
        proof {
            use_type_invariant(self);
            lemma_pairing_at(self.columns.keys@, self.columns.vals@, i as int);
        }
        (self.columns.keys[i].dup(), &self.columns.vals[i])
    }

    fn position(&self, k: &K) -> (r: Option<usize>)
        ensures
            match r {
                Some(i) => i < self.columns.keys@.len() && self.columns.keys@[i as int] == *k
                    && self@.contains_key(*k) && self@[*k] == self.columns.vals@[i as int]@,
                None => !self@.contains_key(*k),
            },
    {
        proof {
            use_type_invariant(self);
        }
        let mut i: usize = 0;
        while i < self.columns.keys.len()
            invariant
                i <= self.columns.keys@.len(),
                self.well_formed(),
                forall|j: int| 0 <= j < i ==> #[trigger] self.columns.keys@[j] != *k,
            decreases self.columns.keys@.len() - i,
        {
            if self.columns.keys[i].same(k) {
                proof {
                    lemma_pairing_at(self.columns.keys@, self.columns.vals@, i as int);
                }
                return Some(i);
            }
            i = i + 1;
        }
        None
    }

    /// Whether the map has a key.
    pub fn contains_key(&self, k: &K) -> (r: bool)
        ensures
            r == self@.contains_key(*k),
    {
        self.position(k).is_some()
    }

    /// The value of a key.
    pub fn get(&self, k: &K) -> (r: Option<&V>)
        ensures
            match r {
                Some(v) => self@.contains_key(*k) && v@ == self@[*k],
                None => !self@.contains_key(*k),
            },
    {
        proof {
            use_type_invariant(self);
        }
        match self.position(k) {
            Some(i) => Some(&self.columns.vals[i]),
            None => None,
        }
    }

    /// The value of a key, for changing it in place.
    pub fn get_mut(&mut self, k: &K) -> (r: Option<&mut V>)
        ensures
            match r {
                Some(v) => old(self)@.contains_key(*k) && v@ == old(self)@[*k] && final(self)@
                    == old(self)@.insert(*k, final(v)@),
                None => !old(self)@.contains_key(*k) && final(self)@ == old(self)@,
            },
    {
        proof {
            use_type_invariant(&*self);
        }
        match self.position(k) {
            Some(i) => {
                proof {
                    let keys = self.columns.keys@;
                    let vals = self.columns.vals@;
                    assert forall|v: V|
                        #[trigger] pairing(keys, vals.update(i as int, v)) == pairing(keys, vals).insert(
                            *k,
                            v@,
                        ) by {
                        lemma_pairing_update(keys, vals, i as int, v);
                    }
                }
                Some(&mut self.columns.vals[i])
            },
            None => None,
        }
    }

    /// Sets the value of a key.
    pub fn insert(&mut self, k: K, v: V)
        ensures
            final(self)@ == old(self)@.insert(k, v@),
    {
        proof {
            use_type_invariant(&*self);
        }
        match self.position(&k) {
            Some(i) => {
                proof {
                    lemma_pairing_update(self.columns.keys@, self.columns.vals@, i as int, v);
                }
                self.columns.vals[i] = v;
            },
            None => {
                let mut columns = Columns { keys: Vec::new(), vals: Vec::new() };
                std::mem::swap(&mut columns, &mut self.columns);
                proof {
                    lemma_pairing_push(columns.keys@, columns.vals@, k, v);
                }
                columns.keys.push(k);
                columns.vals.push(v);
                self.columns = columns;
            },
        }
    }

    /// The value of a key, for changing it in place. A key that is not there is added first, with
    /// the given value.
    pub fn get_or_insert(&mut self, k: &K, default: V) -> (r: &mut V)
        ensures
            r@ == (if old(self)@.contains_key(*k) {
                old(self)@[*k]
            } else {
                default@
            }),
            final(self)@ == old(self)@.insert(*k, final(r)@),
    {
        if !self.contains_key(k) {
            self.insert(k.dup(), default);
        }
        assert(forall|v: V::V|
            old(self)@.insert(*k, default@).insert(*k, v) =~= #[trigger] old(self)@.insert(*k, v));
        self.get_mut(k).unwrap()
    }

    /// Takes a key and its value out.
    pub fn remove(&mut self, k: &K) -> (r: Option<V>)
        ensures
            match r {
                Some(v) => old(self)@.contains_key(*k) && v@ == old(self)@[*k],
                None => !old(self)@.contains_key(*k),
            },
            final(self)@ == old(self)@.remove(*k),
    {
        proof {
            use_type_invariant(&*self);
        }
        match self.position(k) {
            Some(i) => {
                let mut columns = Columns { keys: Vec::new(), vals: Vec::new() };
                std::mem::swap(&mut columns, &mut self.columns);
                proof {
                    lemma_pairing_remove(columns.keys@, columns.vals@, i as int);
                }
                let _ = columns.keys.remove(i);
                let v = columns.vals.remove(i);
                self.columns = columns;
                Some(v)
            },
            None => {
                assert(self@.remove(*k) =~= self@);
                None
            },
        }
    }
}

/// A set of identifiers. Nothing occurs twice.
pub struct ListSet<K: Ident> {
    items: Vec<K>,
}

impl<K: Ident> ListSet<K> {
    #[verifier::type_invariant]
    spec fn well_formed(&self) -> bool {
        distinct(self.items@)
    }

    /// The items, in the order in which the set is walked.
    pub closed spec fn items(&self) -> Seq<K> {
        self.items@
    }

    /// What the set holds.
    pub closed spec fn contents(&self) -> Set<K> {
        self.items@.to_set()
    }
}

impl<K: Ident> View for ListSet<K> {
    type V = Set<K>;

    open spec fn view(&self) -> Set<K> {
        self.contents()
    }
}

impl<K: Ident> ListSet<K> {
    /// An empty set.
    pub fn new() -> (r: Self)
        ensures
            r@ == Set::<K>::empty(),
    {
        let r = ListSet { items: Vec::new() };
        assert(r@ =~= Set::<K>::empty());
        r
    }

    /// How many items the set has.
    pub fn len(&self) -> (r: usize)
        ensures
            r == self.items().len(),
            distinct(self.items()),
            forall|k: K| self.items().contains(k) <==> self@.contains(k),
    {
        proof {
            use_type_invariant(self);
        }
        self.items.len()
    }

    /// The item at a place of the walk.
    pub fn at(&self, i: usize) -> (r: K)
        requires
            i < self.items().len(),
        ensures
            r == self.items()[i as int],
            self@.contains(r),
    {
        self.items[i].dup()
    }

    /// Whether an item is in the set.
    pub fn contains(&self, k: &K) -> (r: bool)
        ensures
            r == self@.contains(*k),
    {
        let mut i: usize = 0;
        while i < self.items.len()
            invariant
                i <= self.items@.len(),
                forall|j: int| 0 <= j < i ==> self.items@[j] != *k,
            decreases self.items@.len() - i,
        {
            if self.items[i].same(k) {
                return true;
            }
            i = i + 1;
        }
        false
    }

    /// Adds an item.
    pub fn insert(&mut self, k: K)
        ensures
            final(self)@ == old(self)@.insert(k),
    {
        proof {
            use_type_invariant(&*self);
        }
        if !self.contains(&k) {
            let mut items: Vec<K> = Vec::new();
            std::mem::swap(&mut items, &mut self.items);
            let ghost before = items@;
            items.push(k);
            proof {
                assert(forall|i: int| 0 <= i < before.len() ==> before.to_set().contains(#[trigger] before[i]));
                assert forall|x: K| items@.to_set().contains(x) <==> before.to_set().insert(k).contains(x) by {
                    if before.contains(x) {
                        let j = choose|j: int| 0 <= j < before.len() && before[j] == x;
                        assert(items@[j] == x);
                    }
                    if x == k {
                        assert(items@[before.len() as int] == k);
                    }
                }
                assert(items@.to_set() =~= before.to_set().insert(k));
            }
            self.items = items;
        } else {
            assert(self@.insert(k) =~= self@);
        }
    }
}

} // verus!

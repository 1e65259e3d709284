//! A small association table: a vector of keys and a vector of values,
//! no key twice, viewed as a finite map from the key's view to the value.

use vstd::prelude::*;

verus! {

/// A key that can be compared by its view.
pub trait TableKey: View + Sized {
    fn same_key(&self, other: &Self) -> (r: bool)
        ensures
            r == (self@ == other@),
    ;
}

impl TableKey for String {
    fn same_key(&self, other: &Self) -> (r: bool) {
        *self == *other
    }
}

impl TableKey for (String, String) {
    fn same_key(&self, other: &Self) -> (r: bool) {
        self.0 == other.0 && self.1 == other.1
    }
}

/// A value that can be copied exactly.
pub trait Dup: Sized {
    fn dup(&self) -> (r: Self)
        ensures
            r == *self,
    ;
}

impl Dup for String {
    fn dup(&self) -> (r: Self) {
        self.clone()
    }
}

impl Dup for u32 {
    fn dup(&self) -> (r: Self) {
        *self
    }
}

impl Dup for i128 {
    fn dup(&self) -> (r: Self) {
        *self
    }
}

impl Dup for () {
    fn dup(&self) -> (r: Self) {
        ()
    }
}

impl Dup for (String, String) {
    fn dup(&self) -> (r: Self) {
        (self.0.clone(), self.1.clone())
    }
}

impl<T: Dup> Dup for Option<T> {
    fn dup(&self) -> (r: Self) {
        match self {
            Some(x) => Some(x.dup()),
            None => None,
        }
    }
}

/// Copies a vector element by element.
pub fn dup_vec<T: Dup>(v: &Vec<T>) -> (r: Vec<T>)
    ensures
        r@ == v@,
{
    let mut r: Vec<T> = Vec::new();
    let n = v.len();
    for i in 0..n
        invariant
            n == v.len(),
            r@ == v@.take(i as int),
    {
        let x = v[i].dup();
        r.push(x);
        assert(r@ =~= v@.take(i + 1));
    }
    assert(v@.take(n as int) =~= v@);
    r
}

pub open spec fn table_parts_wf<K: View, V>(
    keys: Seq<K>,
    vals: Seq<V>,
    map: Map<<K as View>::V, V>,
) -> bool {
    &&& keys.len() == vals.len()
    &&& forall|i: int, j: int| 0 <= i < j < keys.len() ==> #[trigger] keys[i]@ != #[trigger] keys[j]@
    &&& forall|i: int|
        0 <= i < keys.len() ==> #[trigger] map.contains_key(keys[i]@) && map[keys[i]@] == vals[i]
    &&& forall|k: <K as View>::V| #[trigger] map.contains_key(k) ==> exists|i: int|
        0 <= i < keys.len() && #[trigger] keys[i]@ == k
    &&& map.dom().finite()
}

pub struct Table<K: View, V> {
    keys: Vec<K>,
    vals: Vec<V>,
    map: Ghost<Map<<K as View>::V, V>>,
}

impl<K: TableKey, V> View for Table<K, V> {
    type V = Map<<K as View>::V, V>;

    closed spec fn view(&self) -> Map<<K as View>::V, V> {
        self.map@
    }
}

impl<K: TableKey, V> Table<K, V> {
    /// Well-formedness: the two vectors line up, no key occurs twice, and the
    /// ghost map holds exactly the stored pairs.
    pub closed spec fn wf(&self) -> bool {
        table_parts_wf(self.keys@, self.vals@, self.map@)
    }

    pub fn new() -> (t: Self)
        ensures
            t.wf(),
            t@ == Map::<<K as View>::V, V>::empty(),
    {
        Table { keys: Vec::new(), vals: Vec::new(), map: Ghost(Map::empty()) }
    }

    fn find(&self, k: &K) -> (r: Option<usize>)
        requires
            self.wf(),
        ensures
            r is Some <==> self@.contains_key(k@),
            r matches Some(i) ==> i < self.keys@.len() && self.keys@[i as int]@ == k@
                && self.vals@[i as int] == self@[k@],
    {
        let n = self.keys.len();
        let mut i: usize = 0;
        while i < n
            invariant
                self.wf(),
                n == self.keys@.len(),
                i <= n,
                forall|j: int| 0 <= j < i ==> self.keys@[j]@ != k@,
            decreases n - i,
        {
            if self.keys[i].same_key(k) {
                return Some(i);
            }
            i = i + 1;
        }
        proof {
            if self@.contains_key(k@) {
                let j = choose|j: int| 0 <= j < self.keys@.len() && #[trigger] self.keys@[j]@ == k@;
                assert(self.keys@[j]@ == k@);
            }
        }
        None
    }

    pub fn contains_key(&self, k: &K) -> (r: bool)
        requires
            self.wf(),
        ensures
            r == self@.contains_key(k@),
    {
        self.find(k).is_some()
    }

    pub fn get(&self, k: &K) -> (r: Option<&V>)
        requires
            self.wf(),
        ensures
            r is Some <==> self@.contains_key(k@),
            r matches Some(v) ==> *v == self@[k@],
    {
        match self.find(k) {
            Some(i) => Some(&self.vals[i]),
            None => None,
        }
    }

    pub fn insert(&mut self, k: K, v: V)
        requires
            old(self).wf(),
        ensures
            final(self).wf(),
            final(self)@ == old(self)@.insert(k@, v),
    {
        let ghost kv = k@;
        match self.find(&k) {
            Some(i) => {
                self.vals.set(i, v);
                self.map = Ghost(self.map@.insert(kv, v));
                proof {
                    assert(self.keys@ == old(self).keys@);
                    assert forall|j: int| 0 <= j < self.keys@.len() implies
                        #[trigger] self.map@.contains_key(self.keys@[j]@)
                        && self.map@[self.keys@[j]@] == self.vals@[j] by {
                        if j != i {
                            assert(self.keys@[j]@ != self.keys@[i as int]@);
                            assert(self.vals@[j] == old(self).vals@[j]);
                            assert(old(self).map@.contains_key(old(self).keys@[j]@));
                        }
                    }
                    assert forall|kk: <K as View>::V| #[trigger] self.map@.contains_key(kk)
                        implies exists|j: int| 0 <= j < self.keys@.len() && #[trigger] self.keys@[j]@ == kk by {
                        if kk == kv {
                            assert(self.keys@[i as int]@ == kk);
                        } else {
                            assert(old(self).map@.contains_key(kk));
                            let j = choose|j: int| 0 <= j < old(self).keys@.len() && #[trigger] old(self).keys@[j]@ == kk;
                            assert(self.keys@[j]@ == kk);
                        }
                    }
                }
            },
            None => {
                let ghost old_keys = self.keys@;
                self.keys.push(k);
                self.vals.push(v);
                self.map = Ghost(self.map@.insert(kv, v));
                proof {
                    let n = old_keys.len() as int;
                    assert(self.keys@[n]@ == kv);
                    assert forall|a: int, b: int| 0 <= a < b < self.keys@.len() implies
                        #[trigger] self.keys@[a]@ != #[trigger] self.keys@[b]@ by {
                        if b == n {
                            assert(old_keys[a] == self.keys@[a]);
                            assert(self.map@.contains_key(self.keys@[a]@));
                        } else {
                            assert(old_keys[a] == self.keys@[a]);
                            assert(old_keys[b] == self.keys@[b]);
                        }
                    }
                    assert forall|j: int| 0 <= j < self.keys@.len() implies
                        #[trigger] self.map@.contains_key(self.keys@[j]@)
                        && self.map@[self.keys@[j]@] == self.vals@[j] by {
                        if j < n {
                            assert(old_keys[j] == self.keys@[j]);
                            assert(old(self).map@.contains_key(old_keys[j]@));
                        }
                    }
                    assert forall|kk: <K as View>::V| #[trigger] self.map@.contains_key(kk)
                        implies exists|j: int| 0 <= j < self.keys@.len() && #[trigger] self.keys@[j]@ == kk by {
                        if kk == kv {
                            assert(self.keys@[n]@ == kk);
                        } else {
                            assert(old(self).map@.contains_key(kk));
                            let j = choose|j: int| 0 <= j < old_keys.len() && #[trigger] old_keys[j]@ == kk;
                            assert(self.keys@[j] == old_keys[j]);
                        }
                    }
                }
            },
        }
    }

    pub fn remove(&mut self, k: &K)
        requires
            old(self).wf(),
        ensures
            final(self).wf(),
            final(self)@ == old(self)@.remove(k@),
    {
        match self.find(k) {
            Some(i) => {
                let ghost old_keys = self.keys@;
                let ghost old_vals = self.vals@;
                let ghost kv = k@;
                self.keys.remove(i);
                self.vals.remove(i);
                self.map = Ghost(self.map@.remove(kv));
                proof {
                    assert forall|a: int, b: int| 0 <= a < b < self.keys@.len() implies
                        #[trigger] self.keys@[a]@ != #[trigger] self.keys@[b]@ by {
                        let oa = if a < i { a } else { a + 1 };
                        let ob = if b < i { b } else { b + 1 };
                        assert(self.keys@[a] == old_keys[oa]);
                        assert(self.keys@[b] == old_keys[ob]);
                    }
                    assert forall|j: int| 0 <= j < self.keys@.len() implies
                        #[trigger] self.map@.contains_key(self.keys@[j]@)
                        && self.map@[self.keys@[j]@] == self.vals@[j] by {
                        let oj = if j < i { j } else { j + 1 };
                        assert(self.keys@[j] == old_keys[oj]);
                        assert(self.vals@[j] == old_vals[oj]);
                        assert(old_keys[oj]@ != old_keys[i as int]@);
                        assert(old(self).map@.contains_key(old_keys[oj]@));
                    }
                    assert forall|kk: <K as View>::V| #[trigger] self.map@.contains_key(kk)
                        implies exists|j: int| 0 <= j < self.keys@.len() && #[trigger] self.keys@[j]@ == kk by {
                        assert(old(self).map@.contains_key(kk));
                        let oj = choose|j: int| 0 <= j < old_keys.len() && #[trigger] old_keys[j]@ == kk;
                        assert(oj != i);
                        let j = if oj < i { oj } else { oj - 1 };
                        assert(self.keys@[j] == old_keys[oj]);
                    }
                }
            },
            None => {
                proof {
                    assert(self.map@.remove(k@) =~= self.map@);
                }
            },
        }
    }
}

impl<K: TableKey, V> Table<K, V> {
    /// Inserts a pair whose key is not yet present; answers false, and
    /// changes nothing, when it is.
    pub fn insert_new(&mut self, k: K, v: V) -> (added: bool)
        requires
            old(self).wf(),
        ensures
            final(self).wf(),
            added == !old(self)@.contains_key(k@),
            added ==> final(self)@ == old(self)@.insert(k@, v),
            !added ==> final(self)@ == old(self)@,
    {
        if self.contains_key(&k) {
            false
        } else {
            self.insert(k, v);
            true
        }
    }
}

impl<K: TableKey + Dup, V: Dup> Table<K, V> {
    /// The stored keys and values, position by position.
    pub fn entries(&self) -> (r: (Vec<K>, Vec<V>))
        requires
            self.wf(),
        ensures
            table_parts_wf(r.0@, r.1@, self@),
    {
        let keys = dup_vec(&self.keys);
        let vals = dup_vec(&self.vals);
        (keys, vals)
    }

    pub fn dup(&self) -> (r: Self)
        requires
            self.wf(),
        ensures
            r.wf(),
            r@ == self@,
    {
        let keys = dup_vec(&self.keys);
        let vals = dup_vec(&self.vals);
        let r = Table { keys, vals, map: Ghost(self.map@) };
        assert(r.keys@ == self.keys@);
        assert(r.vals@ == self.vals@);
        assert(r.map@ == self.map@);
        r
    }
}

} // verus!

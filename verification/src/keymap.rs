//! A map that remembers the order in which its keys first came in.
use vstd::prelude::*;

verus! {

/// A type whose values can be told apart at run time by their deep views.
pub trait Key: DeepView + Sized {
    fn same(&self, other: &Self) -> (r: bool)
        ensures
            r == (self.deep_view() == other.deep_view()),
    ;
}

/// A type whose values can be duplicated without a change to their deep view.
pub trait Duplicate: DeepView + Sized {
    fn duplicate(&self) -> (r: Self)
        ensures
            r.deep_view() == self.deep_view(),
    ;
}

impl Key for String {
    fn same(&self, other: &Self) -> (r: bool) {
        *self == *other
    }
}

impl Duplicate for String {
    fn duplicate(&self) -> (r: Self) {
        self.clone()
    }
}

impl<T: Duplicate> Duplicate for Option<T> {
    fn duplicate(&self) -> (r: Self) {
        match self {
            Some(value) => Some(value.duplicate()),
            None => None,
        }
    }
}

impl<A: Duplicate, B: Duplicate> Duplicate for (A, B) {
    fn duplicate(&self) -> (r: Self) {
        (self.0.duplicate(), self.1.duplicate())
    }
}

impl<T: Duplicate> Duplicate for Vec<T> {
    fn duplicate(&self) -> (r: Self) {
        let mut out: Vec<T> = Vec::new();
        let n: usize = self.len();
        let mut i: usize = 0;
        while i < n
            invariant
                i <= n,
                n == self.len(),
                out.len() == i,
                forall|j: int|
                    0 <= j < i ==> #[trigger] out@[j].deep_view() == self@[j].deep_view(),
            decreases n - i,
        {
            out.push(self[i].duplicate());
            i = i + 1;
        }
        assert(out.deep_view() =~= self.deep_view());
        out
    }
}

/// A map from keys to values. Each key occurs once; `order` lists the keys in the order in
/// which they were first inserted, and the view is the map itself.
pub struct KeyMap<K: DeepView, V: DeepView> {
    entries: Vec<(K, V)>,
}

/// A map keyed by names.
pub type NameMap<V> = KeyMap<String, V>;

impl<K: DeepView, V: DeepView> KeyMap<K, V> {
    /// The keys, oldest first.
    pub closed spec fn order(&self) -> Seq<K::V> {
        Seq::new(self.entries@.len(), |i: int| self.entries@[i].0.deep_view())
    }

    /// The entries, oldest first.
    pub open spec fn listed(&self) -> Seq<(K::V, V::V)> {
        Seq::new(self.order().len(), |i: int| (self.order()[i], self@[self.order()[i]]))
    }

    /// No key occurs twice.
    #[verifier::type_invariant]
    pub closed spec fn wf(&self) -> bool {
        self.order().no_duplicates()
    }
}

impl<K: DeepView, V: DeepView> View for KeyMap<K, V> {
    type V = Map<K::V, V::V>;

    closed spec fn view(&self) -> Map<K::V, V::V> {
        Map::new(
            |k: K::V| self.order().contains(k),
            |k: K::V| self.entries@[self.order().index_of(k)].1.deep_view(),
        )
    }
}

impl<K: DeepView, V: DeepView> DeepView for KeyMap<K, V> {
    type V = Map<K::V, V::V>;

    open spec fn deep_view(&self) -> Map<K::V, V::V> {
        self@
    }
}

/// The keys of a map are exactly the keys in its order, each of them once.
pub proof fn order_lists_the_keys<K: DeepView, V: DeepView>(m: KeyMap<K, V>)
    requires
        m.wf(),
    ensures
        m.order().no_duplicates(),
        forall|k: K::V| m.order().contains(k) <==> #[trigger] m@.contains_key(k),
        forall|i: int| 0 <= i < m.order().len() ==> m@.contains_key(#[trigger] m.order()[i]),
{
    assert forall|i: int| 0 <= i < m.order().len() implies m@.contains_key(
        #[trigger] m.order()[i],
    ) by {
        assert(m.order().contains(m.order()[i]));
    }
}

impl<K: Key, V: DeepView> KeyMap<K, V> {
    /// The map without entries.
    pub fn new() -> (r: Self)
        ensures
            r@ == Map::<K::V, V::V>::empty(),
            r.order() == Seq::<K::V>::empty(),
            r.wf(),
    {
        let r = KeyMap { entries: Vec::new() };
        assert(r@ =~= Map::<K::V, V::V>::empty());
        assert(r.order() =~= Seq::<K::V>::empty());
        r
    }

    /// The number of entries.
    pub fn len(&self) -> (r: usize)
        ensures
            r == self.order().len(),
            self.wf(),
    {
        proof {
            use_type_invariant(self);
        }
        self.entries.len()
    }

    proof fn entry_at(&self, i: int)
        requires
            self.wf(),
            0 <= i < self.order().len(),
        ensures
            self@.contains_key(self.order()[i]),
            self@[self.order()[i]] == self.entries@[i].1.deep_view(),
    {
        assert(self.order().contains(self.order()[i]));
    }

    /// The key in place `i` of the order.
    pub fn key_at(&self, i: usize) -> (r: &K)
        requires
            i < self.order().len(),
        ensures
            r.deep_view() == self.order()[i as int],
            self@.contains_key(r.deep_view()),
    {
        proof {
            use_type_invariant(self);
            self.entry_at(i as int);
        }
        &self.entries[i].0
    }

    /// The value of the key in place `i` of the order.
    pub fn value_at(&self, i: usize) -> (r: &V)
        requires
            i < self.order().len(),
        ensures
            self@.contains_key(self.order()[i as int]),
            r.deep_view() == self@[self.order()[i as int]],
    {
        proof {
            use_type_invariant(self);
            self.entry_at(i as int);
        }
        &self.entries[i].1
    }

    /// The place of `key` in the order.
    fn position(&self, key: &K) -> (r: Option<usize>)
        ensures
            match r {
                Some(i) => i < self.order().len() && self.order()[i as int] == key.deep_view(),
                None => !self.order().contains(key.deep_view()),
            },
    {
        let n: usize = self.entries.len();
        let mut i: usize = 0;
        while i < n
            invariant
                i <= n,
                n == self.entries.len(),
                forall|j: int| 0 <= j < i ==> self.order()[j] != key.deep_view(),
            decreases n - i,
        {
            if self.entries[i].0.same(key) {
                return Some(i);
            }
            i = i + 1;
        }
        None
    }

    /// Whether there is an entry for `key`.
    pub fn contains_key(&self, key: &K) -> (r: bool)
        ensures
            r == self@.contains_key(key.deep_view()),
    {
        match self.position(key) {
            Some(i) => {
                assert(self.order()[i as int] == key.deep_view());
                true
            },
            None => false,
        }
    }

    /// The value of `key`.
    pub fn get(&self, key: &K) -> (r: Option<&V>)
        ensures
            match r {
                Some(value) => self@.contains_key(key.deep_view()) && value.deep_view()
                    == self@[key.deep_view()],
                None => !self@.contains_key(key.deep_view()),
            },
    {
        match self.position(key) {
            Some(i) => {
                proof {
                    use_type_invariant(self);
                    self.entry_at(i as int);
                }
                Some(&self.entries[i].1)
            },
            None => None,
        }
    }

    /// Gives `key` the value `value`. A new key goes to the end of the order; a key that was
    /// there keeps its place.
    pub fn insert(&mut self, key: K, value: V)
        ensures
            final(self)@ == old(self)@.insert(key.deep_view(), value.deep_view()),
            final(self).order() == (if old(self)@.contains_key(key.deep_view()) {
                old(self).order()
            } else {
                old(self).order().push(key.deep_view())
            }),
            final(self).wf(),
    {
        proof {
            use_type_invariant(&*self);
        }
        let ghost before = *self;
        let found = self.position(&key);
        let mut entries: Vec<(K, V)> = Vec::new();
        std::mem::swap(&mut self.entries, &mut entries);
        let ghost k = key.deep_view();
        let ghost v = value.deep_view();
        match found {
            Some(i) => {
                entries[i] = (key, value);
                assert(Seq::new(entries@.len(), |j: int| entries@[j].0.deep_view())
                    =~= before.order());
                self.entries = entries;
                assert(self.order() =~= before.order());
                assert(before.order().contains(k));
            },
            None => {
                entries.push((key, value));
                assert(Seq::new(entries@.len(), |j: int| entries@[j].0.deep_view())
                    =~= before.order().push(k));
                self.entries = entries;
                assert(self.order() =~= before.order().push(k));
            },
        }
        proof {
            let after = *self;
            assert forall|x: K::V| after.order().contains(x) <==> before.order().contains(x) || x
                == k by {
                if before.order().contains(x) {
                    let j = before.order().index_of(x);
                    assert(after.order()[j] == x);
                }
                if x == k {
                    match found {
                        Some(i) => {
                            assert(after.order()[i as int] == k);
                        },
                        None => {
                            assert(after.order()[before.order().len() as int] == k);
                        },
                    }
                }
            }
            assert forall|x: K::V| after.order().contains(x) implies after@[x]
                == before@.insert(k, v)[x] by {
                let j = after.order().index_of(x);
                if x == k {
                    match found {
                        Some(i) => {
                            assert(after.order()[i as int] == k);
                        },
                        None => {
                            assert(after.order()[before.order().len() as int] == k);
                        },
                    }
                } else {
                    assert(before.order().contains(x));
                    let i = before.order().index_of(x);
                    assert(after.order()[i] == x);
                    assert(i == j);
                }
            }
            assert(after@ =~= before@.insert(k, v));
        }
    }

    /// Takes the entry of `key` out, if there is one; the other keys keep their order.
    pub fn remove(&mut self, key: &K)
        ensures
            final(self)@ == old(self)@.remove(key.deep_view()),
            final(self).order() == old(self).order().remove_value(key.deep_view()),
            final(self).wf(),
    {
        proof {
            use_type_invariant(&*self);
        }
        let ghost before = *self;
        let ghost k = key.deep_view();
        let found = self.position(key);
        proof {
            before.order().index_of_first_ensures(k);
        }
        match found {
            Some(i) => {
                assert(before.order()[i as int] == k);
                let mut entries: Vec<(K, V)> = Vec::new();
                std::mem::swap(&mut self.entries, &mut entries);
                let _ = entries.remove(i);
                assert(Seq::new(entries@.len(), |j: int| entries@[j].0.deep_view())
                    =~= before.order().remove(i as int));
                self.entries = entries;
                assert(self.order() =~= before.order().remove(i as int));
                proof {
                    let after = *self;
                    assert forall|x: K::V| after.order().contains(x) <==> before.order().contains(x)
                        && x != k by {
                        if before.order().contains(x) && x != k {
                            let j = before.order().index_of(x);
                            if j < i {
                                assert(after.order()[j] == x);
                            } else {
                                assert(after.order()[j - 1] == x);
                            }
                        }
                        if after.order().contains(x) {
                            let j = after.order().index_of(x);
                            if j < i {
                                assert(before.order()[j] == x);
                            } else {
                                assert(before.order()[j + 1] == x);
                            }
                        }
                    }
                    assert forall|x: K::V| after.order().contains(x) implies after@[x]
                        == before@[x] by {
                        let j = after.order().index_of(x);
                        let h = before.order().index_of(x);
                        if j < i {
                            assert(before.order()[j] == x);
                            assert(h == j);
                        } else {
                            assert(before.order()[j + 1] == x);
                            assert(h == j + 1);
                        }
                    }
                    assert(after@ =~= before@.remove(k));
                }
            },
            None => {
                assert(self@ =~= before@.remove(k));
            },
        }
    }
}

impl<K: Key + Duplicate, V: Duplicate> Duplicate for KeyMap<K, V> {
    fn duplicate(&self) -> (r: Self)
        ensures
            r@ == self@,
            r.order() == self.order(),
            r.wf(),
    {
        proof {
            use_type_invariant(self);
        }
        let entries: Vec<(K, V)> = self.entries.duplicate();
        assert(entries.deep_view() == self.entries.deep_view());
        assert(entries.deep_view().len() == entries@.len());
        assert(self.entries.deep_view().len() == self.entries@.len());
        assert forall|i: int| 0 <= i < self.entries@.len() implies {
            &&& #[trigger] entries@[i].0.deep_view() == self.entries@[i].0.deep_view()
            &&& entries@[i].1.deep_view() == self.entries@[i].1.deep_view()
        } by {
            assert(entries.deep_view()[i] == self.entries.deep_view()[i]);
            assert(entries.deep_view()[i] == entries@[i].deep_view());
        }
        assert(Seq::new(entries@.len(), |i: int| entries@[i].0.deep_view()) =~= self.order());
        let r = KeyMap { entries };
        assert(r.order() =~= self.order());
        assert forall|k: K::V| self@.contains_key(k) implies r@[k] == self@[k] by {
            assert(self.order().contains(k));
        }
        assert(r@ =~= self@);
        r
    }
}

impl<K: Key, T: DeepView> KeyMap<K, Vec<T>> {
    /// Puts `item` at the end of the list of `key`, which is empty where there was none.
    pub fn push_to(&mut self, key: K, item: T)
        ensures
            final(self)@ == old(self)@.insert(
                key.deep_view(),
                list_of(old(self)@, key.deep_view()).push(item.deep_view()),
            ),
            final(self)@[key.deep_view()] == (if old(self)@.contains_key(key.deep_view()) {
                old(self)@[key.deep_view()].push(item.deep_view())
            } else {
                seq![item.deep_view()]
            }),
            final(self).order() == (if old(self)@.contains_key(key.deep_view()) {
                old(self).order()
            } else {
                old(self).order().push(key.deep_view())
            }),
            final(self).wf(),
    {
        proof {
            use_type_invariant(&*self);
        }
        let ghost before = *self;
        let ghost k = key.deep_view();
        let ghost x = item.deep_view();
        match self.position(&key) {
            Some(i) => {
                let ghost list = self.entries@[i as int].1;
                proof {
                    self.entry_at(i as int);
                }
                let mut entries: Vec<(K, Vec<T>)> = Vec::new();
                std::mem::swap(&mut self.entries, &mut entries);
                entries[i].1.push(item);
                assert(entries@[i as int].1.deep_view() =~= list.deep_view().push(x));
                assert(Seq::new(entries@.len(), |j: int| entries@[j].0.deep_view())
                    =~= before.order());
                self.entries = entries;
                assert(self.order() =~= before.order());
                proof {
                    let after = *self;
                    assert(before.order().contains(k));
                    assert forall|y: K::V| before.order().contains(y) implies after@[y]
                        == before@.insert(k, list.deep_view().push(x))[y] by {
                        let j = before.order().index_of(y);
                        assert(after.order().index_of(y) == j);
                        if y == k {
                            assert(j == i);
                        }
                    }
                    assert(after@ =~= before@.insert(k, list.deep_view().push(x)));
                }
            },
            None => {
                let mut list: Vec<T> = Vec::new();
                list.push(item);
                assert(list.deep_view() =~= Seq::<T::V>::empty().push(x));
                self.insert(key, list);
            },
        }
    }
}

/// The list that `m` has for `k`: empty where it has none.
pub open spec fn list_of<A, B>(m: Map<A, Seq<B>>, k: A) -> Seq<B> {
    if m.contains_key(k) {
        m[k]
    } else {
        Seq::empty()
    }
}

} // verus!

//! A map from strings to values that keeps its entries in ascending key
//! order, the order of `str`: lexicographic by the bytes of the UTF-8
//! encoding.

use vstd::prelude::*;
use vstd::string::StringSliceAdditionalSpecFns;
use vstd::utf8::{encode_utf8, encode_utf8_decode_utf8};

verus! {

/// Whether `a` comes before `b` in lexicographic order.
pub open spec fn bytes_before(a: Seq<u8>, b: Seq<u8>) -> bool
    decreases a.len(),
{
    if b.len() == 0 {
        false
    } else if a.len() == 0 {
        true
    } else if a[0] != b[0] {
        a[0] < b[0]
    } else {
        bytes_before(a.drop_first(), b.drop_first())
    }
}

/// Whether the string `a` sorts before the string `b`.
pub open spec fn key_before(a: Seq<char>, b: Seq<char>) -> bool {
    bytes_before(encode_utf8(a), encode_utf8(b))
}

/// Whether every key sorts before all that follow it.
pub open spec fn ascending(keys: Seq<Seq<char>>) -> bool {
    forall|i: int, j: int| 0 <= i < j < keys.len() ==> key_before(keys[i], keys[j])
}

/// Nothing comes before itself.
pub proof fn lemma_bytes_before_irreflexive(a: Seq<u8>)
    ensures
        !bytes_before(a, a),
    decreases a.len(),
{
    if a.len() > 0 {
        lemma_bytes_before_irreflexive(a.drop_first());
    }
}

/// The order is transitive.
pub proof fn lemma_bytes_before_transitive(a: Seq<u8>, b: Seq<u8>, c: Seq<u8>)
    requires
        bytes_before(a, b),
        bytes_before(b, c),
    ensures
        bytes_before(a, c),
    decreases a.len(),
{
    if a.len() > 0 && a[0] == b[0] && b[0] == c[0] {
        lemma_bytes_before_transitive(a.drop_first(), b.drop_first(), c.drop_first());
    }
}

/// Past a common prefix the order is that of the remainders.
proof fn lemma_bytes_before_skip(a: Seq<u8>, b: Seq<u8>, i: int)
    requires
        0 <= i <= a.len(),
        i <= b.len(),
        forall|j: int| 0 <= j < i ==> a[j] == b[j],
    ensures
        bytes_before(a, b) == bytes_before(a.skip(i), b.skip(i)),
    decreases i,
{
    if i > 0 {
        lemma_bytes_before_skip(a.drop_first(), b.drop_first(), i - 1);
        assert(a.drop_first().skip(i - 1) =~= a.skip(i));
        assert(b.drop_first().skip(i - 1) =~= b.skip(i));
    } else {
        assert(a.skip(0) =~= a);
        assert(b.skip(0) =~= b);
    }
}

/// No key sorts before itself, and the order of keys is transitive.
pub proof fn lemma_key_before_strict(a: Seq<char>, b: Seq<char>, c: Seq<char>)
    ensures
        !key_before(a, a),
        key_before(a, b) && key_before(b, c) ==> key_before(a, c),
        key_before(a, b) ==> a != b && !key_before(b, a),
{
    lemma_bytes_before_irreflexive(encode_utf8(a));
    if key_before(a, b) && key_before(b, c) {
        lemma_bytes_before_transitive(encode_utf8(a), encode_utf8(b), encode_utf8(c));
    }
    if key_before(a, b) && key_before(b, a) {
        lemma_bytes_before_transitive(encode_utf8(a), encode_utf8(b), encode_utf8(a));
    }
}

/// How one key stands to another.
#[derive(Clone, Copy, Debug, PartialEq, Eq, Structural)]
pub enum KeyOrder {
    Before,
    Same,
    After,
}

/// Compares two keys.
pub fn key_order(a: &str, b: &str) -> (r: KeyOrder)
    ensures
        r is Before <==> key_before(a@, b@),
        r is Same <==> a@ == b@,
        r is After <==> key_before(b@, a@),
{
    let x = a.as_bytes();
    let y = b.as_bytes();
    let n = x.len();
    let m = y.len();
    proof {
        lemma_key_before_strict(a@, b@, a@);
        lemma_key_before_strict(b@, a@, b@);
        encode_utf8_decode_utf8(a@);
        encode_utf8_decode_utf8(b@);
    }
    let mut i: usize = 0;
    while i < n && i < m
        invariant
            i <= n,
            i <= m,
            n == x@.len(),
            m == y@.len(),
            x@ == encode_utf8(a@),
            y@ == encode_utf8(b@),
            forall|j: int| 0 <= j < i ==> x@[j] == y@[j],
        decreases n - i,
    {
        if x[i] < y[i] {
            proof {
                lemma_bytes_before_skip(x@, y@, i as int);
                lemma_key_before_strict(a@, b@, a@);
            }
            return KeyOrder::Before;
        }
        if x[i] > y[i] {
            proof {
                lemma_bytes_before_skip(y@, x@, i as int);
                lemma_key_before_strict(b@, a@, b@);
            }
            return KeyOrder::After;
        }
        i += 1;
    }
    if n == m {
        assert(x@ =~= y@);
        KeyOrder::Same
    } else if n < m {
        proof {
            lemma_bytes_before_skip(x@, y@, i as int);
        }
        KeyOrder::Before
    } else {
        proof {
            lemma_bytes_before_skip(y@, x@, i as int);
        }
        KeyOrder::After
    }
}

/// Whether two strings are the same.
pub fn same(a: &str, b: &str) -> (r: bool)
    ensures
        r == (a@ == b@),
{
    match key_order(a, b) {
        KeyOrder::Same => true,
        _ => false,
    }
}

/// Where `key` stands among `keys`; meaningful when it is one of them.
pub open spec fn position(keys: Seq<Seq<char>>, key: Seq<char>) -> int {
    choose|i: int| 0 <= i < keys.len() && keys[i] == key
}

/// A map from strings to values, held in ascending key order.
#[derive(Debug, PartialEq)]
pub struct StringMap<V> {
    keys: Vec<String>,
    values: Vec<V>,
}

impl<V> StringMap<V> {
    /// The keys, in order.
    pub closed spec fn keys(self) -> Seq<Seq<char>> {
        Seq::new(self.keys@.len(), |i: int| self.keys@[i]@)
    }

    /// The values, each at the place of its key.
    pub closed spec fn values(self) -> Seq<V> {
        self.values@
    }

    /// Every key has a value, and the keys ascend.
    #[verifier::type_invariant]
    pub open spec fn wf(self) -> bool {
        self.keys().len() == self.values().len() && ascending(self.keys())
    }
}

impl<V: Clone> Clone for StringMap<V> {
    fn clone(&self) -> (m: Self)
        ensures
            m.keys() == self.keys(),
            m.values().len() == self.values().len(),
    {
        proof {
            use_type_invariant(self);
        }
        let keys = self.keys.clone();
        let values = self.values.clone();
        assert(Seq::new(keys@.len(), |i: int| keys@[i]@) =~= self.keys());
        StringMap { keys, values }
    }
}

impl<V: View> View for StringMap<V> {
    type V = Map<Seq<char>, V::V>;

    open spec fn view(&self) -> Map<Seq<char>, V::V> {
        Map::new(
            |k: Seq<char>| self.keys().contains(k),
            |k: Seq<char>| self.values()[position(self.keys(), k)]@,
        )
    }
}

impl<V: View> StringMap<V> {
    /// The view holds exactly the listed entries, and no key is listed twice.
    pub proof fn lemma_entries(self)
        requires
            self.wf(),
        ensures
            self.keys().no_duplicates(),
            self@.dom() =~= self.keys().to_set(),
            self@.dom().finite(),
            forall|i: int|
                0 <= i < self.keys().len() ==> self@.contains_key(#[trigger] self.keys()[i])
                    && self@[self.keys()[i]] == self.values()[i]@,
    {
        let keys = self.keys();
        assert forall|i: int, j: int| 0 <= i < keys.len() && 0 <= j < keys.len() && i != j implies keys[i]
            != keys[j] by {
            lemma_key_before_strict(keys[i], keys[j], keys[i]);
            lemma_key_before_strict(keys[j], keys[i], keys[j]);
        }
        vstd::seq_lib::seq_to_set_is_finite(keys);
        assert forall|i: int| 0 <= i < keys.len() implies self@.contains_key(#[trigger] keys[i])
            && self@[keys[i]] == self.values()[i]@ by {
            let p = position(keys, keys[i]);
            assert(keys[p] == keys[i]);
        }
    }

    /// A map is the view as soon as it holds each listed entry and no other key.
    pub proof fn lemma_view_is(self, m: Map<Seq<char>, V::V>)
        requires
            self.wf(),
            forall|i: int|
                0 <= i < self.keys().len() ==> m.contains_key(#[trigger] self.keys()[i]) && m[self.keys()[i]]
                    == self.values()[i]@,
            forall|k: Seq<char>| m.contains_key(k) ==> self.keys().contains(k),
        ensures
            self@ == m,
    {
        self.lemma_entries();
        assert forall|k: Seq<char>| self@.contains_key(k) implies m.contains_key(k) && self@[k] == m[k] by {
            let p = position(self.keys(), k);
            assert(self.keys()[p] == k);
        }
        assert(self@ =~= m);
    }

    /// Changing the value at one place changes the view at that key alone.
    pub proof fn lemma_update(self, after: Self, i: int)
        requires
            self.wf(),
            0 <= i < self.keys().len(),
            after.keys() == self.keys(),
            after.values() == self.values().update(i, after.values()[i]),
        ensures
            after.wf(),
            after@ == self@.insert(self.keys()[i], after.values()[i]@),
    {
        self.lemma_entries();
        let m = self@.insert(self.keys()[i], after.values()[i]@);
        assert forall|k: Seq<char>| m.contains_key(k) implies after.keys().contains(k) by {
            if k != self.keys()[i] {
                let p = position(self.keys(), k);
                assert(self.keys()[p] == k);
            }
        }
        after.lemma_view_is(m);
    }

    /// An empty map.
    pub fn new() -> (m: Self)
        ensures
            m.keys() == Seq::<Seq<char>>::empty(),
            m.values() == Seq::<V>::empty(),
            m@ == Map::<Seq<char>, V::V>::empty(),
    {
        let m = StringMap { keys: Vec::new(), values: Vec::new() };
        assert(m.keys() =~= Seq::<Seq<char>>::empty());
        assert(m@ =~= Map::<Seq<char>, V::V>::empty());
        m
    }

    /// The number of entries.
    pub fn len(&self) -> (n: usize)
        ensures
            n == self.keys().len(),
            n == self@.len(),
            self.wf(),
    {
        proof {
            use_type_invariant(self);
            self.lemma_entries();
            self.keys().unique_seq_to_set();
        }
        self.keys.len()
    }

    /// The key at place `i`.
    pub fn key_at(&self, i: usize) -> (k: &String)
        requires
            i < self.keys().len(),
        ensures
            k@ == self.keys()[i as int],
    {
        &self.keys[i]
    }

    /// The value at place `i`.
    pub fn value_at(&self, i: usize) -> (v: &V)
        requires
            i < self.keys().len(),
        ensures
            *v == self.values()[i as int],
            self.wf(),
    {
        proof {
            use_type_invariant(self);
        }
        &self.values[i]
    }

    /// The value at place `i`, to be changed where it stands.
    pub fn value_at_mut(&mut self, i: usize) -> (v: &mut V)
        requires
            i < old(self).keys().len(),
        ensures
            *v == old(self).values()[i as int],
            old(self).wf(),
            final(self).keys() == old(self).keys(),
            final(self).values() == old(self).values().update(i as int, *final(v)),
    {
        proof {
            use_type_invariant(&*self);
        }
        &mut self.values[i]
    }

    /// Looks `key` up: whether it is there, and the place where it stands or
    /// would have to stand.
    fn search(&self, key: &str) -> (r: (bool, usize))
        ensures
            self.wf(),
            r.1 <= self.keys().len(),
            r.0 ==> r.1 < self.keys().len() && self.keys()[r.1 as int] == key@,
            !r.0 ==> !self.keys().contains(key@),
            !r.0 ==> forall|j: int| 0 <= j < r.1 ==> key_before(#[trigger] self.keys()[j], key@),
            !r.0 ==> forall|j: int|
                r.1 <= j < self.keys().len() ==> key_before(key@, #[trigger] self.keys()[j]),
    {
        proof {
            use_type_invariant(self);
        }
        let mut lo: usize = 0;
        let mut hi: usize = self.keys.len();
        while lo < hi
            invariant
                lo <= hi <= self.keys().len(),
                self.keys().len() == self.keys@.len(),
                self.wf(),
                forall|j: int| 0 <= j < lo ==> key_before(#[trigger] self.keys()[j], key@),
                forall|j: int| hi <= j < self.keys().len() ==> key_before(key@, #[trigger] self.keys()[j]),
            decreases hi - lo,
        {
            let mid = lo + (hi - lo) / 2;
            let here = self.keys[mid].as_str();
            assert(here@ == self.keys()[mid as int]);
            match key_order(here, key) {
                KeyOrder::Same => {
                    return (true, mid);
                },
                KeyOrder::Before => {
                    assert forall|j: int| 0 <= j < mid + 1 implies key_before(
                        #[trigger] self.keys()[j],
                        key@,
                    ) by {
                        if j < mid {
                            lemma_key_before_strict(self.keys()[j], here@, key@);
                        }
                    }
                    lo = mid + 1;
                },
                KeyOrder::After => {
                    assert forall|j: int| mid <= j < self.keys().len() implies key_before(
                        key@,
                        #[trigger] self.keys()[j],
                    ) by {
                        if j > mid {
                            lemma_key_before_strict(key@, here@, self.keys()[j]);
                        }
                    }
                    hi = mid;
                },
            }
        }
        proof {
            assert forall|j: int| 0 <= j < self.keys().len() implies self.keys()[j] != key@ by {
                lemma_key_before_strict(key@, key@, key@);
            }
        }
        (false, lo)
    }

    /// The place of `key`, if it is in the map.
    pub fn index_of(&self, key: &str) -> (r: Option<usize>)
        ensures
            self.wf(),
            match r {
                Some(i) => i < self.keys().len() && self.keys()[i as int] == key@,
                None => !self.keys().contains(key@),
            },
            r.is_some() == self@.contains_key(key@),
    {
        let (found, i) = self.search(key);
        if found {
            Some(i)
        } else {
            None
        }
    }

    /// Whether `key` is in the map.
    pub fn contains_key(&self, key: &str) -> (b: bool)
        ensures
            b == self@.contains_key(key@),
    {
        self.search(key).0
    }

    /// The value of `key`, if it is in the map.
    pub fn get(&self, key: &str) -> (r: Option<&V>)
        ensures
            match r {
                Some(v) => self@.contains_key(key@) && v@ == self@[key@],
                None => !self@.contains_key(key@),
            },
    {
        let (found, i) = self.search(key);
        if found {
            proof {
                self.lemma_entries();
            }
            Some(&self.values[i])
        } else {
            None
        }
    }

    /// Adds an entry whose key sorts after every key of the map.
    pub(crate) fn push(&mut self, key: String, value: V)
        requires
            forall|j: int| 0 <= j < old(self).keys().len() ==> key_before(old(self).keys()[j], key@),
        ensures
            final(self).wf(),
            final(self).keys() == old(self).keys().push(key@),
            final(self).values() == old(self).values().push(value),
    {
        proof {
            use_type_invariant(&*self);
        }
        let ghost before = *self;
        let mut taken = StringMap { keys: Vec::new(), values: Vec::new() };
        core::mem::swap(self, &mut taken);
        let StringMap { keys: mut keys, values: mut values } = taken;
        keys.push(key);
        values.push(value);
        proof {
            let listed = Seq::new(keys@.len(), |j: int| keys@[j]@);
            assert(listed =~= before.keys().push(key@));
            assert forall|a: int, b: int| 0 <= a < b < listed.len() implies key_before(
                listed[a],
                listed[b],
            ) by {
                assert(listed[a] == before.keys()[a]);
                if b < before.keys().len() {
                    assert(listed[b] == before.keys()[b]);
                }
            }
        }
        *self = StringMap { keys, values };
    }

    /// Gives `key` the value `value`, whether or not it had one.
    pub fn insert(&mut self, key: String, value: V)
        ensures
            final(self).wf(),
            final(self)@ == old(self)@.insert(key@, value@),
            old(self)@.contains_key(key@) ==> final(self).keys() == old(self).keys(),
            !old(self)@.contains_key(key@) ==> final(self).keys().len() == old(self).keys().len() + 1,
    {
        let (found, i) = self.search(key.as_str());
        proof {
            self.lemma_entries();
        }
        let ghost before = *self;
        if found {
            self.values[i] = value;
            proof {
                use_type_invariant(&*self);
                self.lemma_view_is(before@.insert(key@, value@));
            }
        } else {
            let mut taken = StringMap { keys: Vec::new(), values: Vec::new() };
            core::mem::swap(self, &mut taken);
            let StringMap { keys: mut keys, values: mut values } = taken;
            keys.insert(i, key);
            values.insert(i, value);
            let ghost listed = Seq::new(keys@.len(), |j: int| keys@[j]@);
            proof {
                assert(listed =~= before.keys().insert(i as int, key@));
                assert forall|a: int, b: int| 0 <= a < b < listed.len() implies key_before(
                    listed[a],
                    listed[b],
                ) by {
                    if a == i {
                        assert(listed[b] == before.keys()[b - 1]);
                    } else if b == i {
                        assert(listed[a] == before.keys()[a]);
                    } else {
                        let a0 = if a < i { a } else { a - 1 };
                        let b0 = if b < i { b } else { b - 1 };
                        assert(listed[a] == before.keys()[a0]);
                        assert(listed[b] == before.keys()[b0]);
                    }
                }
            }
            *self = StringMap { keys, values };
            proof {
                assert(self.keys() =~= listed);
                let m = before@.insert(key@, value@);
                assert forall|j: int| 0 <= j < self.keys().len() implies m.contains_key(
                    #[trigger] self.keys()[j],
                ) && m[self.keys()[j]] == self.values()[j]@ by {
                    if j < i {
                        assert(self.keys()[j] == before.keys()[j]);
                    } else if j > i {
                        assert(self.keys()[j] == before.keys()[j - 1]);
                    }
                }
                assert forall|k: Seq<char>| m.contains_key(k) implies self.keys().contains(k) by {
                    if k == key@ {
                        assert(self.keys()[i as int] == k);
                    } else {
                        let p = position(before.keys(), k);
                        assert(before.keys()[p] == k);
                        let q = if p < i { p } else { p + 1 };
                        assert(self.keys()[q] == k);
                    }
                }
                self.lemma_view_is(m);
            }
        }
    }
}

impl<V: View + Copy> StringMap<V> {
    /// A copy of the map.
    pub fn duplicate(&self) -> (m: Self)
        ensures
            m.wf(),
            m.keys() == self.keys(),
            m.values() == self.values(),
            m@ == self@,
    {
        proof {
            use_type_invariant(self);
        }
        let mut m: StringMap<V> = StringMap::new();
        let n = self.keys.len();
        let mut i: usize = 0;
        while i < n
            invariant
                i <= n,
                n == self.keys().len(),
                self.wf(),
                m.wf(),
                m.keys() == self.keys().take(i as int),
                m.values() == self.values().take(i as int),
            decreases n - i,
        {
            let key = self.keys[i].clone();
            assert(key@ == self.keys()[i as int]);
            m.push(key, self.values[i]);
            assert(self.keys().take(i as int).push(self.keys()[i as int]) =~= self.keys().take(
                i + 1,
            ));
            assert(self.values().take(i as int).push(self.values()[i as int]) =~= self.values().take(
                i + 1,
            ));
            i += 1;
        }
        assert(self.keys().take(n as int) =~= self.keys());
        assert(self.values().take(n as int) =~= self.values());
        m
    }
}

} // verus!

//! The interning arena: a bidirectional, append-only store that maps a
//! structural hash of a value to a stable opaque handle and canonicalizes
//! structurally equal values to one handle.

use std::collections::HashMap;
use vstd::prelude::*;

verus! {

broadcast use vstd::std_specs::hash::group_hash_axioms;

/// A value that can be interned in a [`BiMap`] arena.
///
/// `keq` is the logical equality that interning canonicalizes; `skey` is a
/// structural hash that must agree on `keq`-equal values (so the reverse
/// index finds every candidate); `kids` lists the handles of same-arena
/// entries the value references, which the arena keeps strictly below the
/// value's own handle.
pub trait InternValue: Sized {
    /// Logical (structural) equality of two values.
    spec fn keq(&self, other: &Self) -> bool;

    /// Structural hash key; depends only on the `keq`-class.
    spec fn skey(&self) -> u64;

    /// Handles of entries of the same arena that this value references.
    spec fn kids(&self) -> Seq<u64>;

    /// `keq` is an equivalence relation and `skey` respects it.
    proof fn keq_laws(a: &Self, b: &Self, c: &Self)
        ensures
            a.keq(a),
            a.keq(b) == b.keq(a),
            a.keq(b) && b.keq(c) ==> a.keq(c),
            a.keq(b) ==> a.skey() == b.skey(),
    ;

    /// Computes the structural hash key.
    fn key(&self) -> (k: u64)
        ensures
            k == self.skey(),
    ;

    /// Decides logical equality.
    fn same(&self, other: &Self) -> (r: bool)
        ensures
            r == self.keq(other),
    ;
}

/// Does `s` hold an entry logically equal to `v`?
pub open spec fn has_eqv<T: InternValue>(s: Seq<T>, v: T) -> bool {
    exists|j: int| 0 <= j < s.len() && s[j].keq(&v)
}

/// An append-only interning arena: a vector of canonical values plus a
/// reverse index from structural hash to the handles bearing that hash.
/// A handle is the position of the canonical value in the vector.
pub struct BiMap<T> {
    items: Vec<T>,
    index: HashMap<u64, Vec<usize>>,
}

impl<T: InternValue> View for BiMap<T> {
    type V = Seq<T>;

    closed spec fn view(&self) -> Seq<T> {
        self.items@
    }
}

impl<T: InternValue> BiMap<T> {
    /// Structural invariant: the reverse index is sound and complete for the
    /// stored values, no two stored values are logically equal, and every
    /// entry's same-arena children lie strictly below it.
    pub closed spec fn inv(&self) -> bool {
        &&& forall|i: int|
            0 <= i < self.items@.len() ==> {
                let k = (#[trigger] self.items@[i]).skey();
                &&& self.index@.contains_key(k)
                &&& exists|j: int|
                    0 <= j < self.index@[k]@.len() && self.index@[k]@[j] as int == i
            }
        &&& forall|k: u64, j: int|
            #![trigger self.index@[k]@[j]]
            self.index@.contains_key(k) && 0 <= j < self.index@[k]@.len() ==> {
                &&& (self.index@[k]@[j] as int) < self.items@.len()
                &&& self.items@[self.index@[k]@[j] as int].skey() == k
            }
        &&& forall|i1: int, i2: int|
            #![trigger self.items@[i1].keq(&self.items@[i2])]
            0 <= i1 < self.items@.len() && 0 <= i2 < self.items@.len() && i1 != i2
                ==> !self.items@[i1].keq(&self.items@[i2])
        &&& forall|i: int, j: int|
            #![trigger self.items@[i].kids()[j]]
            0 <= i < self.items@.len() && 0 <= j < self.items@[i].kids().len()
                ==> (self.items@[i].kids()[j] as int) < i
    }

    /// Creates an empty arena.
    pub fn new() -> (r: Self)
        ensures
            r.inv(),
            r@ == Seq::<T>::empty(),
    {
        let r = BiMap { items: Vec::new(), index: HashMap::new() };
        proof {
            assert(r@ =~= Seq::<T>::empty());
        }
        r
    }

    /// Number of interned values.
    pub fn len(&self) -> (n: usize)
        ensures
            n == self@.len(),
    {
        self.items.len()
    }

    /// Looks a value up by handle. Must succeed for every handle this arena
    /// ever returned; a handle from another arena is a caller error ruled
    /// out by the precondition.
    pub fn get(&self, h: u64) -> (r: &T)
        requires
            self.inv(),
            (h as int) < self@.len(),
        ensures
            *r == self@[h as int],
    {
        &self.items[h as usize]
    }

    /// Interns a value: returns the handle of the logically equal entry if
    /// one exists, otherwise appends the value and returns its new handle.
    /// Children must already be interned, which keeps the store a DAG.
    pub fn intern(&mut self, v: T) -> (h: u64)
        requires
            old(self).inv(),
            forall|j: int| 0 <= j < v.kids().len() ==> (#[trigger] v.kids()[j] as int) < old(self)@.len(),
        ensures
            final(self).inv(),
            (h as int) < final(self)@.len(),
            final(self)@[h as int].keq(&v),
            has_eqv(old(self)@, v) ==> final(self)@ == old(self)@,
            !has_eqv(old(self)@, v) ==> final(self)@ == old(self)@.push(v) && h as int == old(
                self,
            )@.len(),
    {
        let k = v.key();
        let ghost items0 = self.items@;
        match self.index.get(&k) {
            Some(bucket) => {
                let n = bucket.len();
                let mut j: usize = 0;
                while j < n
                    invariant
                        self.inv(),
                        self@ == items0,
                        n == bucket@.len(),
                        j <= n,
                        self.index@.contains_key(k),
                        bucket@ == self.index@[k]@,
                        k == v.skey(),
                        forall|t: int| 0 <= t < j ==> !self@[bucket@[t] as int].keq(&v),
                    decreases n - j,
                {
                    let i = bucket[j];
                    if self.items[i].same(&v) {
                        proof {
                            T::keq_laws(&self.items@[i as int], &v, &v);
                            assert(has_eqv(items0, v));
                        }
                        return i as u64;
                    }
                    j += 1;
                }
                proof {
                    assert forall|t: int| 0 <= t < items0.len() implies !(#[trigger] items0[t]).keq(
                        &v,
                    ) by {
                        T::keq_laws(&items0[t], &v, &v);
                        if items0[t].keq(&v) {
                            assert(items0[t].skey() == v.skey());
                        }
                    }
                    assert(!has_eqv(items0, v));
                }
                self.push_new(v, k)
            },
            None => {
                proof {
                    assert forall|t: int| 0 <= t < items0.len() implies !(#[trigger] items0[t]).keq(
                        &v,
                    ) by {
                        T::keq_laws(&items0[t], &v, &v);
                    }
                    assert(!has_eqv(items0, v));
                }
                self.push_new(v, k)
            },
        }
    }

    /// Appends a value known to be absent and records it in the reverse index.
    fn push_new(&mut self, v: T, k: u64) -> (h: u64)
        requires
            old(self).inv(),
            k == v.skey(),
            forall|t: int| 0 <= t < old(self)@.len() ==> !(#[trigger] old(self)@[t]).keq(&v),
            forall|j: int| 0 <= j < v.kids().len() ==> (#[trigger] v.kids()[j] as int) < old(self)@.len(),
        ensures
            final(self).inv(),
            final(self)@ == old(self)@.push(v),
            h as int == old(self)@.len(),
            final(self)@[h as int].keq(&v),
    {
        let ghost m0 = self.index@;
        let i = self.items.len();
        self.items.push(v);
        let ghost ob: Seq<usize>;
        let mut bucket: Vec<usize> = match self.index.remove(&k) {
            Some(b) => {
                proof {
                    ob = b@;
                    assert(m0.contains_key(k) && b == m0[k]);
                }
                b
            },
            None => {
                proof {
                    ob = Seq::<usize>::empty();
                    assert(!m0.contains_key(k));
                }
                Vec::new()
            },
        };
        bucket.push(i);
        proof {
            assert(bucket@ == ob.push(i));
        }
        self.index.insert(k, bucket);
        proof {
            let s = self.items@;
            let m1 = self.index@;
            assert(m1 =~= m0.remove(k).insert(k, bucket));
            assert(m1[k]@ == ob.push(i));
            assert(forall|kk: u64| kk != k && #[trigger] m1.contains_key(kk) ==> m0.contains_key(
                kk,
            ) && m1[kk] == m0[kk]);
            T::keq_laws(&s[i as int], &s[i as int], &s[i as int]);
            assert forall|t: int| 0 <= t < s.len() implies {
                let kk = (#[trigger] s[t]).skey();
                &&& m1.contains_key(kk)
                &&& exists|j: int| 0 <= j < m1[kk]@.len() && m1[kk]@[j] as int == t
            } by {
                let kk = s[t].skey();
                if t == i as int {
                    assert(m1[k]@[ob.len() as int] as int == t);
                } else {
                    assert(old(self).inv());
                    assert(s[t] == old(self).items@[t]);
                    assert(m0.contains_key(kk));
                    let j0 = choose|j0: int| 0 <= j0 < m0[kk]@.len() && m0[kk]@[j0] as int == t;
                    if kk == k {
                        assert(m1[k]@[j0] as int == t);
                    } else {
                        assert(m1[kk]@[j0] as int == t);
                    }
                }
            }
            assert forall|kk: u64, j: int|
                #![trigger m1[kk]@[j]]
                m1.contains_key(kk) && 0 <= j < m1[kk]@.len() implies {
                &&& (m1[kk]@[j] as int) < s.len()
                &&& s[m1[kk]@[j] as int].skey() == kk
            } by {
                if kk == k && j == ob.len() as int {
                    assert(m1[kk]@[j] == i);
                } else {
                    assert(m0.contains_key(kk) && m0[kk]@[j] == m1[kk]@[j]);
                    assert((m1[kk]@[j] as int) < old(self).items@.len());
                }
            }
            assert forall|i1: int, i2: int|
                #![trigger s[i1].keq(&s[i2])]
                0 <= i1 < s.len() && 0 <= i2 < s.len() && i1 != i2 implies !s[i1].keq(&s[i2]) by {
                T::keq_laws(&s[i1], &s[i2], &s[i2]);
                if i1 == i as int {
                    assert(!old(self)@[i2].keq(&v));
                } else if i2 == i as int {
                    assert(!old(self)@[i1].keq(&v));
                } else {
                    assert(old(self).inv());
                }
            }
            assert forall|t: int, j: int|
                #![trigger s[t].kids()[j]]
                0 <= t < s.len() && 0 <= j < s[t].kids().len() implies (s[t].kids()[j] as int)
                < t by {
                if t < i as int {
                    assert(old(self).inv());
                    assert((old(self).items@[t].kids()[j] as int) < t);
                } else {
                    assert((v.kids()[j] as int) < i as int);
                }
            }
        }
        i as u64
    }

    /// Looks a value up without interning it.
    pub fn find(&self, v: &T) -> (r: Option<u64>)
        requires
            self.inv(),
        ensures
            match r {
                Some(h) => (h as int) < self@.len() && self@[h as int].keq(v),
                None => !has_eqv(self@, *v),
            },
    {
        let k = v.key();
        match self.index.get(&k) {
            Some(bucket) => {
                let n = bucket.len();
                let mut j: usize = 0;
                while j < n
                    invariant
                        self.inv(),
                        n == bucket@.len(),
                        j <= n,
                        self.index@.contains_key(k),
                        bucket@ == self.index@[k]@,
                        k == v.skey(),
                        forall|t: int| 0 <= t < j ==> !self@[bucket@[t] as int].keq(v),
                    decreases n - j,
                {
                    let i = bucket[j];
                    if self.items[i].same(v) {
                        return Some(i as u64);
                    }
                    j += 1;
                }
                proof {
                    assert forall|t: int| 0 <= t < self@.len() implies !(#[trigger] self@[t]).keq(
                        v,
                    ) by {
                        T::keq_laws(&self@[t], v, v);
                        if self@[t].keq(v) {
                            assert(self@[t].skey() == v.skey());
                        }
                    }
                }
                None
            },
            None => {
                proof {
                    assert forall|t: int| 0 <= t < self@.len() implies !(#[trigger] self@[t]).keq(
                        v,
                    ) by {
                        T::keq_laws(&self@[t], v, v);
                    }
                }
                None
            },
        }
    }

    /// Canonicality: two logically equal entries are one entry.
    pub proof fn lemma_canonical(&self, i: int, j: int)
        requires
            self.inv(),
            0 <= i < self@.len(),
            0 <= j < self@.len(),
            self@[i].keq(&self@[j]),
        ensures
            i == j,
    {
    }

    /// The DAG law: every entry's same-arena children are handles allocated
    /// strictly before it, so no entry references a not-yet-allocated one
    /// and no reference cycle can exist.
    pub proof fn lemma_dag(&self, i: int, j: int)
        requires
            self.inv(),
            0 <= i < self@.len(),
            0 <= j < self@[i].kids().len(),
        ensures
            self@[i].kids()[j] < i,
    {
    }
}

} // verus!

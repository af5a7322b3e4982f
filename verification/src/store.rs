use vstd::prelude::*;
use crate::semantics::StoreV;
use crate::value::Val;

verus! {

/// Compares two byte strings for equality.
pub fn bytes_eq(a: &[u8], b: &[u8]) -> (r: bool)
    ensures
        r == (a@ == b@),
{
    if a.len() != b.len() {
        assert(a@.len() != b@.len());
        return false;
    }
    let n = a.len();
    let mut i: usize = 0;
    while i < n
        invariant
            n == a@.len() == b@.len(),
            i <= n,
            forall|j: int| 0 <= j < i ==> a@[j] == b@[j],
        decreases n - i,
    {
        if a[i] != b[i] {
            return false;
        }
        i = i + 1;
    }
    assert(a@ =~= b@);
    true
}

/// The single mutable mapping from variable name to current value.  Keys are
/// unique; an assignment to a bound name overwrites its value.
#[derive(Debug)]
pub struct Store {
    entries: Vec<(Vec<u8>, Val)>,
}

/// The mapping an entry list denotes: a later entry for the same name wins.
spec fn map_of(es: Seq<(Vec<u8>, Val)>) -> StoreV
    decreases es.len(),
{
    if es.len() == 0 {
        Map::empty()
    } else {
        map_of(es.drop_last()).insert(es.last().0@, es.last().1)
    }
}

impl View for Store {
    type V = StoreV;

    closed spec fn view(&self) -> StoreV {
        map_of(self.entries@)
    }
}

proof fn lemma_map_of_found(es: Seq<(Vec<u8>, Val)>, k: Seq<u8>, i: int)
    requires
        0 <= i < es.len(),
        es[i].0@ == k,
        forall|j: int| i < j < es.len() ==> es[j].0@ != k,
    ensures
        map_of(es).contains_key(k),
        map_of(es)[k] == es[i].1,
    decreases es.len(),
{
    if i == es.len() - 1 {
    } else {
        assert(es.drop_last()[i] == es[i]);
        lemma_map_of_found(es.drop_last(), k, i);
    }
}

proof fn lemma_map_of_absent(es: Seq<(Vec<u8>, Val)>, k: Seq<u8>)
    requires
        forall|j: int| 0 <= j < es.len() ==> es[j].0@ != k,
    ensures
        !map_of(es).contains_key(k),
    decreases es.len(),
{
    if es.len() > 0 {
        lemma_map_of_absent(es.drop_last(), k);
    }
}

proof fn lemma_map_of_update(es: Seq<(Vec<u8>, Val)>, i: int, p: (Vec<u8>, Val))
    requires
        0 <= i < es.len(),
        p.0@ == es[i].0@,
        forall|j: int| i < j < es.len() ==> es[j].0@ != es[i].0@,
    ensures
        map_of(es.update(i, p)) =~= map_of(es).insert(p.0@, p.1),
    decreases es.len(),
{
    let k = es[i].0@;
    if i == es.len() - 1 {
        assert(es.update(i, p).drop_last() =~= es.drop_last());
        assert(es.update(i, p).last() == p);
    } else {
        assert(es.update(i, p).drop_last() =~= es.drop_last().update(i, p));
        assert(es.drop_last()[i] == es[i]);
        lemma_map_of_update(es.drop_last(), i, p);
        assert(es.update(i, p).last() == es.last());
    }
}

proof fn lemma_map_of_push(es: Seq<(Vec<u8>, Val)>, p: (Vec<u8>, Val))
    ensures
        map_of(es.push(p)) =~= map_of(es).insert(p.0@, p.1),
{
    assert(es.push(p).drop_last() =~= es);
    assert(es.push(p).last() == p);
}

impl Store {
    /// Keys are pairwise distinct, so a lookup has at most one match.
    pub closed spec fn wf(&self) -> bool {
        forall|i: int, j: int|
            0 <= i < j < self.entries@.len() ==> self.entries@[i].0@ != self.entries@[j].0@
    }

    /// A fresh, empty store.
    pub fn new() -> (r: Store)
        ensures
            r.wf(),
            r@ == StoreV::empty(),
    {
        Store { entries: Vec::new() }
    }

    /// The current value bound to `name`, if any assignment bound one.
    pub fn get(&self, name: &[u8]) -> (r: Option<Val>)
        requires
            self.wf(),
        ensures
            r == (if self@.contains_key(name@) {
                Some(self@[name@])
            } else {
                None::<Val>
            }),
    {
        let n = self.entries.len();
        let mut i: usize = 0;
        while i < n
            invariant
                self.wf(),
                n == self.entries@.len(),
                i <= n,
                forall|j: int| 0 <= j < i ==> self.entries@[j].0@ != name@,
            decreases n - i,
        {
            if bytes_eq(self.entries[i].0.as_slice(), name) {
                proof {
                    lemma_map_of_found(self.entries@, name@, i as int);
                }
                return Some(self.entries[i].1);
            }
            i = i + 1;
        }
        proof {
            lemma_map_of_absent(self.entries@, name@);
        }
        None
    }

    /// Binds `name` to `v`, overwriting any earlier binding of that name.
    pub fn insert(&mut self, name: Vec<u8>, v: Val)
        requires
            old(self).wf(),
        ensures
            final(self).wf(),
            final(self)@ == old(self)@.insert(name@, v),
    {
        let n = self.entries.len();
        let mut i: usize = 0;
        while i < n
            invariant
                self.wf(),
                self.entries@ == old(self).entries@,
                n == self.entries@.len(),
                i <= n,
                forall|j: int| 0 <= j < i ==> self.entries@[j].0@ != name@,
            decreases n - i,
        {
            if bytes_eq(self.entries[i].0.as_slice(), name.as_slice()) {
                proof {
                    lemma_map_of_update(self.entries@, i as int, (name, v));
                }
                self.entries.set(i, (name, v));
                return;
            }
            i = i + 1;
        }
        proof {
            lemma_map_of_push(self.entries@, (name, v));
        }
        self.entries.push((name, v));
    }


    /// Every binding of the store, each name with its current value.
    pub fn items(&self) -> (r: Vec<(Vec<u8>, Val)>)
        requires
            self.wf(),
        ensures
            r@.len() == self@.dom().len(),
            forall|i: int|
                0 <= i < r@.len() ==> #[trigger] self@.contains_key(r@[i].0@) && self@[r@[i].0@]
                    == r@[i].1,
    {
        let n = self.entries.len();
        let mut r: Vec<(Vec<u8>, Val)> = Vec::new();
        let mut i: usize = 0;
        while i < n
            invariant
                self.wf(),
                n == self.entries@.len(),
                i <= n,
                r@.len() == i,
                forall|j: int|
                    0 <= j < i ==> r@[j].0@ == self.entries@[j].0@ && r@[j].1
                        == self.entries@[j].1,
            decreases n - i,
        {
            r.push((self.entries[i].0.clone(), self.entries[i].1));
            i = i + 1;
        }
        proof {
            lemma_map_of_dom_len(self.entries@);
            assert forall|k: int|
                0 <= k < r@.len() implies self@.contains_key(r@[k].0@) && self@[r@[k].0@]
                == r@[k].1 by {
                lemma_map_of_found(self.entries@, r@[k].0@, k);
            }
        }
        r
    }
    /// How many variables are bound.
    pub fn len(&self) -> (r: usize)
        requires
            self.wf(),
        ensures
            r == self@.dom().len(),
    {
        proof {
            lemma_map_of_dom_len(self.entries@);
        }
        self.entries.len()
    }
}

proof fn lemma_map_of_dom_len(es: Seq<(Vec<u8>, Val)>)
    requires
        forall|i: int, j: int| 0 <= i < j < es.len() ==> es[i].0@ != es[j].0@,
    ensures
        map_of(es).dom().finite(),
        map_of(es).dom().len() == es.len(),
    decreases es.len(),
{
    if es.len() == 0 {
        assert(map_of(es).dom() =~= Set::<Seq<u8>>::empty());
    } else {
        lemma_map_of_dom_len(es.drop_last());
        lemma_map_of_absent(es.drop_last(), es.last().0@);
        assert(map_of(es).dom() =~= map_of(es.drop_last()).dom().insert(es.last().0@));
    }
}

} // verus!

use vstd::prelude::*;

verus! {

/// A 32-byte account address or signer identity.
pub type Key = [u8; 32];

/// Compares two keys byte by byte.
pub fn same_key(a: &Key, b: &Key) -> (r: bool)
    ensures
        r == (a@ == b@),
{
    let mut i: usize = 0;
    while i < 32
        invariant
            0 <= i <= 32,
            a@.len() == 32,
            b@.len() == 32,
            forall|j: int| 0 <= j < i ==> a@[j] == b@[j],
        decreases 32 - i,
    {
        if a[i] != b[i] {
            return false;
        }
        i = i + 1;
    }
    assert(a@ =~= b@);
    true
}

/// A table of records keyed by address, where each address occurs at most once.
pub struct Store<V> {
    entries: Vec<(Key, V)>,
}

impl<V> Store<V> {
    pub closed spec fn has(&self, k: Seq<u8>) -> bool {
        exists|i: int| 0 <= i < self.entries@.len() && (#[trigger] self.entries@[i]).0@ == k
    }

    closed spec fn index_of(&self, k: Seq<u8>) -> int {
        choose|i: int| 0 <= i < self.entries@.len() && (#[trigger] self.entries@[i]).0@ == k
    }

    /// The addresses of the entries are pairwise distinct.
    pub closed spec fn wf(&self) -> bool {
        forall|i: int, j: int|
            0 <= i < self.entries@.len() && 0 <= j < self.entries@.len() && i != j
                ==> (#[trigger] self.entries@[i]).0@ != (#[trigger] self.entries@[j]).0@
    }

    pub closed spec fn view(&self) -> Map<Seq<u8>, V> {
        Map::new(|k: Seq<u8>| self.has(k), |k: Seq<u8>| self.entries@[self.index_of(k)].1)
    }

    pub fn new() -> (s: Self)
        ensures
            s.wf(),
            s.view() == Map::<Seq<u8>, V>::empty(),
    {
        let s = Store { entries: Vec::new() };
        assert(s.view() =~= Map::<Seq<u8>, V>::empty());
        s
    }

    fn find(&self, k: &Key) -> (r: Option<usize>)
        requires
            self.wf(),
        ensures
            r is None ==> !self.view().contains_key(k@),
            r is Some ==> r->0 < self.entries@.len() && self.entries@[r->0 as int].0@ == k@
                && self.index_of(k@) == r->0 as int && self.view().contains_key(k@),
    {
        let mut i: usize = 0;
        while i < self.entries.len()
            invariant
                0 <= i <= self.entries@.len(),
                self.wf(),
                forall|j: int| 0 <= j < i ==> (#[trigger] self.entries@[j]).0@ != k@,
            decreases self.entries@.len() - i,
        {
            if same_key(&self.entries[i].0, k) {
                assert(self.has(k@));
                let ghost j = self.index_of(k@);
                assert(self.entries@[j].0@ == k@);
                return Some(i);
            }
            i = i + 1;
        }
        None
    }

    pub fn contains(&self, k: &Key) -> (r: bool)
        requires
            self.wf(),
        ensures
            r == self.view().contains_key(k@),
    {
        self.find(k).is_some()
    }

    pub fn get(&self, k: &Key) -> (r: Option<&V>)
        requires
            self.wf(),
        ensures
            r is Some <==> self.view().contains_key(k@),
            r is Some ==> *r->0 == self.view()[k@],
    {
        match self.find(k) {
            Some(i) => Some(&self.entries[i].1),
            None => None,
        }
    }

    pub fn insert_new(&mut self, k: Key, v: V)
        requires
            old(self).wf(),
            !old(self).view().contains_key(k@),
        ensures
            final(self).wf(),
            final(self).view() == old(self).view().insert(k@, v),
    {
        let ghost before = self.entries@;
        self.entries.push((k, v));
        let ghost n = before.len() as int;
        assert(self.entries@[n].0@ == k@);
        assert forall|key: Seq<u8>| #[trigger] self.has(key) == (key == k@ || old(self).has(key)) by {
            if old(self).has(key) {
                let i = old(self).index_of(key);
                assert(self.entries@[i] == before[i]);
            }
            if self.has(key) && key != k@ {
                let i = self.index_of(key);
                assert(i != n);
                assert(before[i] == self.entries@[i]);
            }
        }
        assert forall|key: Seq<u8>| #[trigger] self.has(key) && key != k@
            implies self.index_of(key) == old(self).index_of(key) by {
            let i = self.index_of(key);
            let j = old(self).index_of(key);
            assert(self.entries@[j] == before[j]);
        }
        assert(self.index_of(k@) == n);
        assert(self.view() =~= old(self).view().insert(k@, v));
    }

    pub fn replace(&mut self, k: &Key, v: V)
        requires
            old(self).wf(),
            old(self).view().contains_key(k@),
        ensures
            final(self).wf(),
            final(self).view() == old(self).view().insert(k@, v),
    {
        let i = self.find(k).unwrap();
        let ghost before = self.entries@;
        let (kk, _) = self.entries.remove(i);
        self.entries.insert(i, (kk, v));
        assert(self.entries@ =~= before.update(i as int, (kk, v)));
        assert forall|key: Seq<u8>| #[trigger] self.has(key) == old(self).has(key) by {
            if old(self).has(key) {
                let j = old(self).index_of(key);
                assert(self.entries@[j].0@ == key);
            }
            if self.has(key) {
                let j = self.index_of(key);
                assert(before[j].0@ == key);
            }
        }
        assert forall|key: Seq<u8>| #[trigger] self.has(key)
            implies self.index_of(key) == old(self).index_of(key) by {
            let a = self.index_of(key);
            let b = old(self).index_of(key);
            assert(before[a].0@ == key);
        }
        assert(self.view() =~= old(self).view().insert(k@, v));
    }
}

} // verus!

//! An object store: byte bodies addressed by path-like keys.

use vstd::prelude::*;
use crate::text::{has_prefix, same_text, starts_with};

verus! {

/// Why an object store operation did not happen.
#[derive(Clone, Copy, Debug, PartialEq, Eq, Structural)]
pub enum ObjectError {
    /// The source key of a copy holds no object.
    NotFound,
}

/// One stored object.
#[derive(Debug)]
pub struct StoredObject {
    pub key: String,
    pub body: Vec<u8>,
}

/// Objects keyed by path; putting to a key that exists overwrites it.
#[derive(Debug)]
pub struct ObjectStore {
    objects: Vec<StoredObject>,
}

impl View for ObjectStore {
    type V = Map<Seq<char>, Seq<u8>>;

    closed spec fn view(&self) -> Map<Seq<char>, Seq<u8>> {
        Map::new(
            |k: Seq<char>| exists|i: int| 0 <= i < self.objects.len() && self.objects[i].key@ == k,
            |k: Seq<char>|
                self.objects[choose|i: int|
                    0 <= i < self.objects.len() && self.objects[i].key@ == k].body@,
        )
    }
}

/// The keys of `m` that start with `prefix`.
pub open spec fn keys_under(m: Map<Seq<char>, Seq<u8>>, prefix: Seq<char>) -> Set<Seq<char>> {
    m.dom().filter(|k: Seq<char>| has_prefix(k, prefix))
}

impl ObjectStore {
    /// No two stored objects share a key.
    pub closed spec fn wf(&self) -> bool {
        forall|i: int, j: int|
            0 <= i < j < self.objects.len() ==> self.objects[i].key@ != self.objects[j].key@
    }

    proof fn lemma_at(&self, i: int)
        requires
            self.wf(),
            0 <= i < self.objects.len(),
        ensures
            self@.contains_key(self.objects[i].key@),
            self@[self.objects[i].key@] == self.objects[i].body@,
    {
        let k = self.objects[i].key@;
        let j = choose|j: int| 0 <= j < self.objects.len() && self.objects[j].key@ == k;
        assert(0 <= j < self.objects.len() && self.objects[j].key@ == k);
        if j != i {
            if j < i {
                assert(self.objects[j].key@ != self.objects[i].key@);
            } else {
                assert(self.objects[i].key@ != self.objects[j].key@);
            }
        }
    }

    pub fn new() -> (r: Self)
        ensures
            r.wf(),
            r@ == Map::<Seq<char>, Seq<u8>>::empty(),
    {
        let r = ObjectStore { objects: Vec::new() };
        assert(r@ =~= Map::<Seq<char>, Seq<u8>>::empty());
        r
    }

    fn find(&self, key: &str) -> (r: Option<usize>)
        requires
            self.wf(),
        ensures
            match r {
                Some(i) => i < self.objects.len() && self.objects[i as int].key@ == key@,
                None => !self@.contains_key(key@),
            },
    {
        let mut i: usize = 0;
        while i < self.objects.len()
            invariant
                i <= self.objects.len(),
                forall|j: int| 0 <= j < i ==> self.objects[j].key@ != key@,
            decreases self.objects.len() - i,
        {
            if same_text(self.objects[i].key.as_str(), key) {
                return Some(i);
            }
            i = i + 1;
        }
        None
    }

    /// Tells whether an object is stored under `key`.
    pub fn contains(&self, key: &str) -> (r: bool)
        requires
            self.wf(),
        ensures
            r == self@.contains_key(key@),
    {
        match self.find(key) {
            Some(i) => {
                proof {
                    self.lemma_at(i as int);
                }
                true
            },
            None => false,
        }
    }

    /// The body stored under `key`, if any.
    pub fn get(&self, key: &str) -> (r: Option<&Vec<u8>>)
        requires
            self.wf(),
        ensures
            match r {
                Some(b) => self@.contains_key(key@) && b@ == self@[key@],
                None => !self@.contains_key(key@),
            },
    {
        match self.find(key) {
            Some(i) => {
                proof {
                    self.lemma_at(i as int);
                }
                Some(&self.objects[i].body)
            },
            None => None,
        }
    }

    /// Stores `body` under `key`, replacing what was there.
    pub fn put(&mut self, key: String, body: Vec<u8>)
        requires
            old(self).wf(),
        ensures
            final(self).wf(),
            final(self)@ == old(self)@.insert(key@, body@),
    {
        let ghost k = key@;
        let ghost b = body@;
        let ghost pre = *self;
        match self.find(key.as_str()) {
            Some(i) => {
                self.objects.set(i, StoredObject { key, body });
                proof {
                    assert forall|a: int, c: int|
                        0 <= a < c < self.objects.len() implies self.objects[a].key@
                        != self.objects[c].key@ by {
                        assert(self.objects[a].key@ == pre.objects[a].key@);
                        assert(self.objects[c].key@ == pre.objects[c].key@);
                    }
                    self.lemma_same_keys_update(pre, i as int, k, b);
                }
            },
            None => {
                self.objects.push(StoredObject { key, body });
                proof {
                    self.lemma_push(pre, k, b);
                }
            },
        }
    }

    proof fn lemma_same_keys_update(&self, pre: Self, i: int, k: Seq<char>, b: Seq<u8>)
        requires
            pre.wf(),
            self.wf(),
            0 <= i < pre.objects.len(),
            pre.objects[i].key@ == k,
            self.objects@ == pre.objects@.update(i, self.objects[i]),
            self.objects[i].key@ == k,
            self.objects[i].body@ == b,
        ensures
            self@ == pre@.insert(k, b),
    {
        assert forall|x: Seq<char>| #[trigger] self@.contains_key(x) == pre@.insert(k, b).contains_key(x) by {
            if self@.contains_key(x) {
                let j = choose|j: int| 0 <= j < self.objects.len() && self.objects[j].key@ == x;
                if j != i {
                    pre.lemma_at(j);
                }
            }
            if pre@.contains_key(x) && x != k {
                let j = choose|j: int| 0 <= j < pre.objects.len() && pre.objects[j].key@ == x;
                self.lemma_at(j);
            }
            if x == k {
                self.lemma_at(i);
            }
        }
        assert forall|x: Seq<char>| #[trigger] self@.contains_key(x) implies self@[x] == pre@.insert(k, b)[x] by {
            let j = choose|j: int| 0 <= j < self.objects.len() && self.objects[j].key@ == x;
            self.lemma_at(j);
            if j != i {
                pre.lemma_at(j);
            }
        }
        assert(self@ =~= pre@.insert(k, b));
    }

    proof fn lemma_push(&self, pre: Self, k: Seq<char>, b: Seq<u8>)
        requires
            pre.wf(),
            !pre@.contains_key(k),
            self.objects@ == pre.objects@.push(self.objects@.last()),
            self.objects@.last().key@ == k,
            self.objects@.last().body@ == b,
        ensures
            self.wf(),
            self@ == pre@.insert(k, b),
    {
        let n = pre.objects.len() as int;
        assert forall|a: int, c: int|
            0 <= a < c < self.objects.len() implies self.objects[a].key@ != self.objects[c].key@ by {
            if c == n {
                pre.lemma_at(a);
            } else {
                assert(self.objects[a] == pre.objects[a]);
                assert(self.objects[c] == pre.objects[c]);
            }
        }
        assert forall|x: Seq<char>| #[trigger] self@.contains_key(x) == pre@.insert(k, b).contains_key(x) by {
            if self@.contains_key(x) {
                let j = choose|j: int| 0 <= j < self.objects.len() && self.objects[j].key@ == x;
                if j != n {
                    assert(self.objects[j] == pre.objects[j]);
                    pre.lemma_at(j);
                }
            }
            if pre@.contains_key(x) {
                let j = choose|j: int| 0 <= j < pre.objects.len() && pre.objects[j].key@ == x;
                assert(self.objects[j] == pre.objects[j]);
                self.lemma_at(j);
            }
            if x == k {
                self.lemma_at(n);
            }
        }
        assert forall|x: Seq<char>| #[trigger] self@.contains_key(x) implies self@[x] == pre@.insert(k, b)[x] by {
            let j = choose|j: int| 0 <= j < self.objects.len() && self.objects[j].key@ == x;
            self.lemma_at(j);
            if j != n {
                assert(self.objects[j] == pre.objects[j]);
                pre.lemma_at(j);
            }
        }
        assert(self@ =~= pre@.insert(k, b));
    }

    /// Copies the object under `src` to `dst`, replacing what `dst` held.
    pub fn copy(&mut self, src: &str, dst: &str) -> (r: Result<(), ObjectError>)
        requires
            old(self).wf(),
        ensures
            final(self).wf(),
            r is Err <==> !old(self)@.contains_key(src@),
            r is Ok ==> final(self)@ == old(self)@.insert(dst@, old(self)@[src@]),
            r is Err ==> final(self)@ == old(self)@ && r == Err::<(), ObjectError>(
                ObjectError::NotFound,
            ),
    {
        match self.find(src) {
            Some(i) => {
                proof {
                    self.lemma_at(i as int);
                }
                let body = self.objects[i].body.clone();
                assert(body@ =~= self@[src@]);
                self.put(String::from_str(dst), body);
                Ok(())
            },
            None => Err(ObjectError::NotFound),
        }
    }

    /// Every key that starts with `prefix`, each once.
    pub fn keys_with_prefix(&self, prefix: &str) -> (r: Vec<String>)
        requires
            self.wf(),
        ensures
            forall|i: int, j: int| 0 <= i < j < r@.len() ==> r@[i]@ != r@[j]@,
            forall|i: int| 0 <= i < r@.len() ==> #[trigger] keys_under(self@, prefix@).contains(r@[i]@),
            forall|k: Seq<char>| #[trigger] keys_under(self@, prefix@).contains(k)
                ==> exists|i: int| 0 <= i < r@.len() && r@[i]@ == k,
    {
        let mut r: Vec<String> = Vec::new();
        let ghost mut idx: Seq<int> = Seq::empty();
        let mut i: usize = 0;
        while i < self.objects.len()
            invariant
                self.wf(),
                i <= self.objects.len(),
                idx.len() == r@.len(),
                forall|a: int| #![trigger idx[a]] 0 <= a < idx.len() ==> 0 <= idx[a] < i
                    && self.objects[idx[a]].key@ == r@[a]@ && has_prefix(r@[a]@, prefix@),
                forall|a: int, c: int| 0 <= a < c < idx.len() ==> idx[a] < idx[c],
                forall|j: int| 0 <= j < i && has_prefix(#[trigger] self.objects[j].key@, prefix@)
                    ==> exists|a: int| 0 <= a < idx.len() && idx[a] == j,
            decreases self.objects.len() - i,
        {
            if starts_with(self.objects[i].key.as_str(), prefix) {
                r.push(self.objects[i].key.clone());
                proof {
                    let n = idx.len() as int;
                    let old_idx = idx;
                    idx = idx.push(i as int);
                    assert(idx[n] == i);
                    assert forall|j: int| 0 <= j < i + 1 && has_prefix(#[trigger] self.objects[j].key@, prefix@)
                        implies exists|a: int| 0 <= a < idx.len() && idx[a] == j by {
                        if j < i {
                            let a = choose|a: int| 0 <= a < old_idx.len() && old_idx[a] == j;
                            assert(idx[a] == j);
                        }
                    }
                }
            }
            i = i + 1;
        }
        proof {
            assert forall|a: int, c: int| 0 <= a < c < r@.len() implies r@[a]@ != r@[c]@ by {
                assert(idx[a] < idx[c]);
            }
            assert forall|a: int| 0 <= a < r@.len() implies #[trigger] keys_under(self@, prefix@).contains(r@[a]@) by {
                assert(0 <= idx[a] < self.objects.len());
                self.lemma_at(idx[a]);
            }
            assert forall|k: Seq<char>| #[trigger] keys_under(self@, prefix@).contains(k)
                implies exists|a: int| 0 <= a < r@.len() && r@[a]@ == k by {
                let j = choose|j: int| 0 <= j < self.objects.len() && self.objects[j].key@ == k;
                assert(has_prefix(self.objects[j].key@, prefix@));
                let a = choose|a: int| 0 <= a < idx.len() && idx[a] == j;
                assert(r@[a]@ == k);
            }
        }
        r
    }
}

} // verus!

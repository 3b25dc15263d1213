//! A cache of values by key, each kept for a fixed time after it was set.

use vstd::prelude::*;
use crate::text::same_text;

verus! {

/// One cached value and the instant (in seconds) until which it is fresh.
#[derive(Debug)]
pub struct CacheEntry<T> {
    pub key: String,
    pub value: T,
    pub expires_at: u64,
}

impl<T> CacheEntry<T> {
    pub open spec fn item(&self) -> (T, u64) {
        (self.value, self.expires_at)
    }
}

/// Values by key, each fresh for `ttl` seconds after it was set. Instants are
/// passed in by the caller, in seconds.
#[derive(Debug)]
pub struct Cache<T> {
    entries: Vec<CacheEntry<T>>,
    ttl: u64,
}

impl<T> View for Cache<T> {
    type V = Map<Seq<char>, (T, u64)>;

    closed spec fn view(&self) -> Map<Seq<char>, (T, u64)> {
        Map::new(
            |k: Seq<char>| exists|i: int| 0 <= i < self.entries.len() && self.entries[i].key@ == k,
            |k: Seq<char>|
                self.entries[choose|i: int|
                    0 <= i < self.entries.len() && self.entries[i].key@ == k].item(),
        )
    }
}

impl<T> Cache<T> {
    /// No two entries share a key.
    pub closed spec fn wf(&self) -> bool {
        forall|i: int, j: int|
            0 <= i < j < self.entries.len() ==> self.entries[i].key@ != self.entries[j].key@
    }

    pub closed spec fn ttl(&self) -> u64 {
        self.ttl
    }

    proof fn lemma_at(&self, i: int)
        requires
            self.wf(),
            0 <= i < self.entries.len(),
        ensures
            self@.contains_key(self.entries[i].key@),
            self@[self.entries[i].key@] == self.entries[i].item(),
    {
        let k = self.entries[i].key@;
        let j = choose|j: int| 0 <= j < self.entries.len() && self.entries[j].key@ == k;
        assert(0 <= j < self.entries.len() && self.entries[j].key@ == k);
        if j != i {
            if j < i {
                assert(self.entries[j].key@ != self.entries[i].key@);
            } else {
                assert(self.entries[i].key@ != self.entries[j].key@);
            }
        }
    }

    /// An empty cache whose values stay fresh for `ttl_seconds`.
    pub fn new(ttl_seconds: u64) -> (r: Self)
        ensures
            r.wf(),
            r@ == Map::<Seq<char>, (T, u64)>::empty(),
            r.ttl() == ttl_seconds,
    {
        let r = Cache { entries: Vec::new(), ttl: ttl_seconds };
        assert(r@ =~= Map::<Seq<char>, (T, u64)>::empty());
        r
    }

    fn find(&self, key: &str) -> (r: Option<usize>)
        requires
            self.wf(),
        ensures
            match r {
                Some(i) => i < self.entries.len() && self.entries[i as int].key@ == key@,
                None => !self@.contains_key(key@),
            },
    {
        let mut i: usize = 0;
        while i < self.entries.len()
            invariant
                i <= self.entries.len(),
                forall|j: int| 0 <= j < i ==> self.entries[j].key@ != key@,
            decreases self.entries.len() - i,
        {
            if same_text(self.entries[i].key.as_str(), key) {
                return Some(i);
            }
            i = i + 1;
        }
        None
    }

    /// The value under `key`, if it is still fresh at `now`.
    pub fn get(&self, key: &str, now: u64) -> (r: Option<&T>)
        requires
            self.wf(),
        ensures
            match r {
                Some(v) => self@.contains_key(key@) && self@[key@].1 > now && *v == self@[key@].0,
                None => !self@.contains_key(key@) || self@[key@].1 <= now,
            },
    {
        match self.find(key) {
            Some(i) => {
                proof {
                    self.lemma_at(i as int);
                }
                if self.entries[i].expires_at > now {
                    Some(&self.entries[i].value)
                } else {
                    None
                }
            },
            None => None,
        }
    }

    /// Sets `value` under `key`, fresh until `now` plus the time to live.
    pub fn set(&mut self, key: String, value: T, now: u64)
        requires
            old(self).wf(),
            now + old(self).ttl() <= u64::MAX,
        ensures
            final(self).wf(),
            final(self).ttl() == old(self).ttl(),
            final(self)@ == old(self)@.insert(key@, (value, (now + old(self).ttl()) as u64)),
    {
        let expires_at = now + self.ttl;
        let ghost k = key@;
        let ghost b = (value, expires_at);
        let ghost pre = *self;
        match self.find(key.as_str()) {
            Some(i) => {
                self.entries.set(i, CacheEntry { key, value, expires_at });
                proof {
                    assert forall|a: int, c: int|
                        0 <= a < c < self.entries.len() implies self.entries[a].key@
                        != self.entries[c].key@ by {
                        assert(self.entries[a].key@ == pre.entries[a].key@);
                        assert(self.entries[c].key@ == pre.entries[c].key@);
                    }
                    self.lemma_update(pre, i as int, k, b);
                }
            },
            None => {
                self.entries.push(CacheEntry { key, value, expires_at });
                proof {
                    self.lemma_push(pre, k, b);
                }
            },
        }
    }

    /// Drops the value under `key`.
    pub fn invalidate(&mut self, key: &str)
        requires
            old(self).wf(),
        ensures
            final(self).wf(),
            final(self).ttl() == old(self).ttl(),
            final(self)@ == old(self)@.remove(key@),
    {
        let ghost pre = *self;
        match self.find(key) {
            Some(i) => {
                proof {
                    self.lemma_at(i as int);
                }
                self.entries.remove(i);
                proof {
                    self.lemma_remove(pre, i as int);
                }
            },
            None => {
                assert(self@ =~= pre@.remove(key@));
            },
        }
    }

    /// Drops every value.
    pub fn clear(&mut self)
        ensures
            final(self).wf(),
            final(self).ttl() == old(self).ttl(),
            final(self)@ == Map::<Seq<char>, (T, u64)>::empty(),
    {
        self.entries.clear();
        assert(self@ =~= Map::<Seq<char>, (T, u64)>::empty());
    }

    /// Drops every value that is no longer fresh at `now`.
    pub fn cleanup(&mut self, now: u64)
        requires
            old(self).wf(),
        ensures
            final(self).wf(),
            final(self).ttl() == old(self).ttl(),
            final(self)@ == old(self)@.restrict(old(self)@.dom().filter(|k: Seq<char>| old(self)@[k].1 > now)),
    {
        let ghost pre = *self;
        let mut stale: Vec<String> = Vec::new();
        let mut i: usize = 0;
        while i < self.entries.len()
            invariant
                self.wf(),
                *self == pre,
                i <= self.entries.len(),
                forall|a: int| 0 <= a < stale@.len() ==> pre@.contains_key(#[trigger] stale@[a]@)
                    && pre@[stale@[a]@].1 <= now,
                forall|j: int| 0 <= j < i && (#[trigger] self.entries[j]).expires_at <= now
                    ==> exists|a: int| 0 <= a < stale@.len() && stale@[a]@ == self.entries[j].key@,
            decreases self.entries.len() - i,
        {
            if self.entries[i].expires_at <= now {
                proof {
                    self.lemma_at(i as int);
                }
                let ghost before = stale@;
                stale.push(self.entries[i].key.clone());
                proof {
                    assert forall|j: int| 0 <= j < i + 1 && (#[trigger] self.entries[j]).expires_at <= now
                        implies exists|a: int| 0 <= a < stale@.len() && stale@[a]@ == self.entries[j].key@ by {
                        if j == i {
                            assert(stale@[before.len() as int]@ == self.entries[j].key@);
                        } else {
                            let a = choose|a: int| 0 <= a < before.len() && before[a]@ == self.entries[j].key@;
                            assert(stale@[a] == before[a]);
                        }
                    }
                }
            }
            i = i + 1;
        }
        let ghost gone = Set::new(|k: Seq<char>| pre@.contains_key(k) && pre@[k].1 <= now);
        proof {
            assert forall|k: Seq<char>| gone.contains(k) implies exists|a: int| 0 <= a < stale@.len() && stale@[a]@ == k by {
                let j = choose|j: int| 0 <= j < pre.entries.len() && pre.entries[j].key@ == k;
                pre.lemma_at(j);
                assert(self.entries[j].expires_at <= now);
            }
        }
        let mut j: usize = 0;
        assert(pre@.remove_keys(Set::new(|k: Seq<char>| exists|a: int| 0 <= a < 0 && stale@[a]@ == k)) =~= pre@);
        while j < stale.len()
            invariant
                self.wf(),
                self.ttl == pre.ttl,
                j <= stale@.len(),
                self@ == pre@.remove_keys(Set::new(|k: Seq<char>| exists|a: int| 0 <= a < j && stale@[a]@ == k)),
            decreases stale@.len() - j,
        {
            let ghost before = self@;
            self.invalidate(stale[j].as_str());
            proof {
                let s0 = Set::new(|k: Seq<char>| exists|a: int| 0 <= a < j && stale@[a]@ == k);
                let s1 = Set::new(|k: Seq<char>| exists|a: int| 0 <= a < j + 1 && stale@[a]@ == k);
                assert(s1 =~= s0.insert(stale@[j as int]@)) by {
                    assert forall|k: Seq<char>| s1.contains(k) implies s0.insert(stale@[j as int]@).contains(k) by {
                        let a = choose|a: int| 0 <= a < j + 1 && stale@[a]@ == k;
                        if a < j {
                            assert(s0.contains(k));
                        }
                    }
                    assert forall|k: Seq<char>| s0.insert(stale@[j as int]@).contains(k) implies s1.contains(k) by {
                        if k == stale@[j as int]@ {
                            assert(0 <= j < j + 1 && stale@[j as int]@ == k);
                        } else {
                            let a = choose|a: int| 0 <= a < j && stale@[a]@ == k;
                            assert(0 <= a < j + 1 && stale@[a]@ == k);
                        }
                    }
                }
                assert(self@ =~= pre@.remove_keys(s1));
            }
            j = j + 1;
        }
        proof {
            let s = Set::new(|k: Seq<char>| exists|a: int| 0 <= a < stale@.len() && stale@[a]@ == k);
            assert forall|k: Seq<char>| pre@.contains_key(k) implies (s.contains(k) <==> pre@[k].1 <= now) by {
                if pre@[k].1 <= now {
                    assert(gone.contains(k));
                }
            }
            assert(self@ =~= pre@.restrict(pre@.dom().filter(|k: Seq<char>| pre@[k].1 > now)));
        }
    }

    /// The number of values held, fresh or not.
    pub fn size(&self) -> (r: usize)
        requires
            self.wf(),
        ensures
            r == self@.len(),
    {
        proof {
            let ids = Seq::new(self.entries.len() as nat, |i: int| self.entries[i].key@);
            assert forall|i: int, j: int| 0 <= i < j < ids.len() implies ids[i] != ids[j] by {}
            ids.unique_seq_to_set();
            assert forall|k: Seq<char>| #[trigger] self@.dom().contains(k) == ids.to_set().contains(k) by {
                if self@.dom().contains(k) {
                    let j = choose|j: int| 0 <= j < self.entries.len() && self.entries[j].key@ == k;
                    assert(ids[j] == k);
                }
                if ids.to_set().contains(k) {
                    let j = choose|j: int| 0 <= j < ids.len() && ids[j] == k;
                    self.lemma_at(j);
                }
            }
            assert(self@.dom() =~= ids.to_set());
        }
        self.entries.len()
    }

    proof fn lemma_remove(&self, pre: Self, i: int)
        requires
            pre.wf(),
            0 <= i < pre.entries.len(),
            self.entries@ == pre.entries@.remove(i),
        ensures
            self.wf(),
            self@ == pre@.remove(pre.entries[i].key@),
    {
        let k = pre.entries[i].key@;
        assert forall|x: int| 0 <= x < self.entries.len() implies #[trigger] self.entries[x]
            == pre.entries[if x < i { x } else { x + 1 }] by {}
        assert forall|x: int, y: int|
            0 <= x < y < self.entries.len() implies self.entries[x].key@ != self.entries[y].key@ by {
            let px = if x < i { x } else { x + 1 };
            let py = if y < i { y } else { y + 1 };
            assert(self.entries[x] == pre.entries[px]);
            assert(self.entries[y] == pre.entries[py]);
        }
        assert forall|z: Seq<char>| #[trigger] self@.contains_key(z) == pre@.remove(k).contains_key(z) by {
            if self@.contains_key(z) {
                let j = choose|j: int| 0 <= j < self.entries.len() && self.entries[j].key@ == z;
                let pj = if j < i { j } else { j + 1 };
                assert(self.entries[j] == pre.entries[pj]);
                pre.lemma_at(pj);
                if z == k {
                    if pj < i {
                        assert(pre.entries[pj].key@ != pre.entries[i].key@);
                    } else {
                        assert(pre.entries[i].key@ != pre.entries[pj].key@);
                    }
                }
            }
            if pre@.contains_key(z) && z != k {
                let j = choose|j: int| 0 <= j < pre.entries.len() && pre.entries[j].key@ == z;
                assert(j != i);
                let sj = if j < i { j } else { j - 1 };
                assert(self.entries[sj] == pre.entries[j]);
                self.lemma_at(sj);
            }
        }
        assert forall|z: Seq<char>| #[trigger] self@.contains_key(z) implies self@[z] == pre@.remove(k)[z] by {
            let j = choose|j: int| 0 <= j < self.entries.len() && self.entries[j].key@ == z;
            self.lemma_at(j);
            let pj = if j < i { j } else { j + 1 };
            assert(self.entries[j] == pre.entries[pj]);
            pre.lemma_at(pj);
        }
        assert(self@ =~= pre@.remove(k));
    }

    proof fn lemma_update(&self, pre: Self, i: int, k: Seq<char>, b: (T, u64))
        requires
            pre.wf(),
            self.wf(),
            0 <= i < pre.entries.len(),
            pre.entries[i].key@ == k,
            self.entries@ == pre.entries@.update(i, self.entries[i]),
            self.entries[i].key@ == k,
            self.entries[i].item() == b,
        ensures
            self@ == pre@.insert(k, b),
    {
        assert forall|x: Seq<char>| #[trigger] self@.contains_key(x) == pre@.insert(k, b).contains_key(x) by {
            if self@.contains_key(x) {
                let j = choose|j: int| 0 <= j < self.entries.len() && self.entries[j].key@ == x;
                if j != i {
                    pre.lemma_at(j);
                }
            }
            if pre@.contains_key(x) && x != k {
                let j = choose|j: int| 0 <= j < pre.entries.len() && pre.entries[j].key@ == x;
                self.lemma_at(j);
            }
            if x == k {
                self.lemma_at(i);
            }
        }
        assert forall|x: Seq<char>| #[trigger] self@.contains_key(x) implies self@[x] == pre@.insert(k, b)[x] by {
            let j = choose|j: int| 0 <= j < self.entries.len() && self.entries[j].key@ == x;
            self.lemma_at(j);
            if j != i {
                pre.lemma_at(j);
            }
        }
        assert(self@ =~= pre@.insert(k, b));
    }

    proof fn lemma_push(&self, pre: Self, k: Seq<char>, b: (T, u64))
        requires
            pre.wf(),
            !pre@.contains_key(k),
            self.entries@ == pre.entries@.push(self.entries@.last()),
            self.entries@.last().key@ == k,
            self.entries@.last().item() == b,
        ensures
            self.wf(),
            self@ == pre@.insert(k, b),
    {
        let n = pre.entries.len() as int;
        assert forall|a: int, c: int|
            0 <= a < c < self.entries.len() implies self.entries[a].key@ != self.entries[c].key@ by {
            if c == n {
                pre.lemma_at(a);
            } else {
                assert(self.entries[a] == pre.entries[a]);
                assert(self.entries[c] == pre.entries[c]);
            }
        }
        assert forall|x: Seq<char>| #[trigger] self@.contains_key(x) == pre@.insert(k, b).contains_key(x) by {
            if self@.contains_key(x) {
                let j = choose|j: int| 0 <= j < self.entries.len() && self.entries[j].key@ == x;
                if j != n {
                    assert(self.entries[j] == pre.entries[j]);
                    pre.lemma_at(j);
                }
            }
            if pre@.contains_key(x) {
                let j = choose|j: int| 0 <= j < pre.entries.len() && pre.entries[j].key@ == x;
                assert(self.entries[j] == pre.entries[j]);
                self.lemma_at(j);
            }
            if x == k {
                self.lemma_at(n);
            }
        }
        assert forall|x: Seq<char>| #[trigger] self@.contains_key(x) implies self@[x] == pre@.insert(k, b)[x] by {
            let j = choose|j: int| 0 <= j < self.entries.len() && self.entries[j].key@ == x;
            self.lemma_at(j);
            if j != n {
                assert(self.entries[j] == pre.entries[j]);
                pre.lemma_at(j);
            }
        }
        assert(self@ =~= pre@.insert(k, b));
    }
}

} // verus!

//! The article store: article records keyed by id.

use vstd::prelude::*;
use crate::model::{Article, ArticleStatus, ArticleUpdate};
use crate::search::{parse_status, status_name};
use crate::text::same_text;

verus! {

/// Why an editor's update was refused.
#[derive(Clone, Copy, Debug, PartialEq, Eq, Structural)]
pub enum UpdateError {
    /// No article has the id.
    NotFound,
    /// The status named in the update is not a status.
    UnknownStatus,
}

/// `a` is `before` with the fields that `u` sets replaced.
pub open spec fn updated(a: Article, before: Article, u: ArticleUpdate) -> bool {
    &&& a.title@ == (match u.title {
        Some(t) => t@,
        None => before.title@,
    })
    &&& a.content.text@ == (match u.content {
        Some(t) => t@,
        None => before.content.text@,
    })
    &&& match u.status {
        Some(s) => status_name(a.status) == s@,
        None => a.status == before.status,
    }
    &&& a.id == before.id
    &&& a.source == before.source
    &&& a.source_url == before.source_url
    &&& a.author == before.author
    &&& a.published_date == before.published_date
    &&& a.scraped_at == before.scraped_at
    &&& a.content.original_html == before.content.original_html
    &&& a.content.images == before.content.images
    &&& a.translations == before.translations
    &&& a.metadata == before.metadata
    &&& a.publishing == before.publishing
}

/// Article records, at most one per id; putting a record replaces the one with its id.
#[derive(Debug)]
pub struct ArticleStore {
    records: Vec<Article>,
}

impl View for ArticleStore {
    type V = Map<Seq<char>, Article>;

    closed spec fn view(&self) -> Map<Seq<char>, Article> {
        Map::new(
            |k: Seq<char>| exists|i: int| 0 <= i < self.records.len() && self.records[i].id@ == k,
            |k: Seq<char>|
                self.records[choose|i: int|
                    0 <= i < self.records.len() && self.records[i].id@ == k],
        )
    }
}

impl ArticleStore {
    /// No two records share an id.
    pub closed spec fn wf(&self) -> bool {
        forall|i: int, j: int|
            0 <= i < j < self.records.len() ==> self.records[i].id@ != self.records[j].id@
    }

    proof fn lemma_at(&self, i: int)
        requires
            self.wf(),
            0 <= i < self.records.len(),
        ensures
            self@.contains_key(self.records[i].id@),
            self@[self.records[i].id@] == self.records[i],
    {
        let k = self.records[i].id@;
        let j = choose|j: int| 0 <= j < self.records.len() && self.records[j].id@ == k;
        assert(0 <= j < self.records.len() && self.records[j].id@ == k);
        if j != i {
            if j < i {
                assert(self.records[j].id@ != self.records[i].id@);
            } else {
                assert(self.records[i].id@ != self.records[j].id@);
            }
        }
    }

    /// Each record is stored under its own id.
    pub proof fn lemma_ids_are_keys(&self)
        requires
            self.wf(),
        ensures
            forall|k: Seq<char>| #[trigger] self@.contains_key(k) ==> self@[k].id@ == k,
    {
        assert forall|k: Seq<char>| #[trigger] self@.contains_key(k) implies self@[k].id@ == k by {
            let j = choose|j: int| 0 <= j < self.records.len() && self.records[j].id@ == k;
            self.lemma_at(j);
        }
    }

    pub fn new() -> (r: Self)
        ensures
            r.wf(),
            r@ == Map::<Seq<char>, Article>::empty(),
    {
        let r = ArticleStore { records: Vec::new() };
        assert(r@ =~= Map::<Seq<char>, Article>::empty());
        r
    }

    fn find(&self, id: &str) -> (r: Option<usize>)
        requires
            self.wf(),
        ensures
            match r {
                Some(i) => i < self.records.len() && self.records[i as int].id@ == id@,
                None => !self@.contains_key(id@),
            },
    {
        let mut i: usize = 0;
        while i < self.records.len()
            invariant
                i <= self.records.len(),
                forall|j: int| 0 <= j < i ==> self.records[j].id@ != id@,
            decreases self.records.len() - i,
        {
            if same_text(self.records[i].id.as_str(), id) {
                return Some(i);
            }
            i = i + 1;
        }
        None
    }

    /// Tells whether a record with this id is stored.
    pub fn contains(&self, id: &str) -> (r: bool)
        requires
            self.wf(),
        ensures
            r == self@.contains_key(id@),
    {
        match self.find(id) {
            Some(i) => {
                proof {
                    self.lemma_at(i as int);
                }
                true
            },
            None => false,
        }
    }

    /// The record with this id, if any.
    pub fn get(&self, id: &str) -> (r: Option<&Article>)
        requires
            self.wf(),
        ensures
            match r {
                Some(a) => self@.contains_key(id@) && *a == self@[id@] && a.id@ == id@,
                None => !self@.contains_key(id@),
            },
    {
        match self.find(id) {
            Some(i) => {
                proof {
                    self.lemma_at(i as int);
                }
                Some(&self.records[i])
            },
            None => None,
        }
    }

    /// Stores `a` under its id, replacing the record that had that id.
    pub fn put(&mut self, a: Article)
        requires
            old(self).wf(),
        ensures
            final(self).wf(),
            final(self)@ == old(self)@.insert(a.id@, a),
    {
        let ghost k = a.id@;
        let ghost v = a;
        let ghost pre = *self;
        match self.find(a.id.as_str()) {
            Some(i) => {
                self.records.set(i, a);
                proof {
                    assert forall|x: int, y: int|
                        0 <= x < y < self.records.len() implies self.records[x].id@
                        != self.records[y].id@ by {
                        assert(self.records[x].id@ == pre.records[x].id@);
                        assert(self.records[y].id@ == pre.records[y].id@);
                    }
                    self.lemma_update(pre, i as int, k, v);
                }
            },
            None => {
                self.records.push(a);
                proof {
                    self.lemma_push(pre, k, v);
                }
            },
        }
    }

    /// Takes the record with this id out of the store.
    pub fn take(&mut self, id: &str) -> (r: Option<Article>)
        requires
            old(self).wf(),
        ensures
            final(self).wf(),
            final(self)@ == old(self)@.remove(id@),
            match r {
                Some(a) => old(self)@.contains_key(id@) && a == old(self)@[id@] && a.id@ == id@,
                None => !old(self)@.contains_key(id@),
            },
    {
        let ghost pre = *self;
        match self.find(id) {
            Some(i) => {
                proof {
                    self.lemma_at(i as int);
                }
                let a = self.records.remove(i);
                proof {
                    self.lemma_remove(pre, i as int);
                }
                Some(a)
            },
            None => {
                assert(self@ =~= pre@.remove(id@));
                None
            },
        }
    }

    proof fn lemma_remove(&self, pre: Self, i: int)
        requires
            pre.wf(),
            0 <= i < pre.records.len(),
            self.records@ == pre.records@.remove(i),
        ensures
            self.wf(),
            self@ == pre@.remove(pre.records[i].id@),
    {
        let k = pre.records[i].id@;
        assert forall|x: int| 0 <= x < self.records.len() implies #[trigger] self.records[x]
            == pre.records[if x < i { x } else { x + 1 }] by {}
        assert forall|x: int, y: int|
            0 <= x < y < self.records.len() implies self.records[x].id@ != self.records[y].id@ by {
            let px = if x < i { x } else { x + 1 };
            let py = if y < i { y } else { y + 1 };
            assert(self.records[x] == pre.records[px]);
            assert(self.records[y] == pre.records[py]);
        }
        assert forall|z: Seq<char>| #[trigger] self@.contains_key(z) == pre@.remove(k).contains_key(z) by {
            if self@.contains_key(z) {
                let j = choose|j: int| 0 <= j < self.records.len() && self.records[j].id@ == z;
                let pj = if j < i { j } else { j + 1 };
                assert(self.records[j] == pre.records[pj]);
                pre.lemma_at(pj);
                if z == k {
                    assert(pre.records[pj].id@ == pre.records[i].id@);
                    if pj < i {
                        assert(pre.records[pj].id@ != pre.records[i].id@);
                    } else {
                        assert(pre.records[i].id@ != pre.records[pj].id@);
                    }
                }
            }
            if pre@.contains_key(z) && z != k {
                let j = choose|j: int| 0 <= j < pre.records.len() && pre.records[j].id@ == z;
                assert(j != i);
                let sj = if j < i { j } else { j - 1 };
                assert(self.records[sj] == pre.records[j]);
                self.lemma_at(sj);
            }
        }
        assert forall|z: Seq<char>| #[trigger] self@.contains_key(z) implies self@[z] == pre@.remove(k)[z] by {
            let j = choose|j: int| 0 <= j < self.records.len() && self.records[j].id@ == z;
            self.lemma_at(j);
            let pj = if j < i { j } else { j + 1 };
            assert(self.records[j] == pre.records[pj]);
            pre.lemma_at(pj);
        }
        assert(self@ =~= pre@.remove(k));
    }

    proof fn lemma_update(&self, pre: Self, i: int, k: Seq<char>, v: Article)
        requires
            pre.wf(),
            self.wf(),
            0 <= i < pre.records.len(),
            pre.records[i].id@ == k,
            self.records@ == pre.records@.update(i, v),
            v.id@ == k,
        ensures
            self@ == pre@.insert(k, v),
    {
        assert forall|x: Seq<char>| #[trigger] self@.contains_key(x) == pre@.insert(k, v).contains_key(x) by {
            if self@.contains_key(x) {
                let j = choose|j: int| 0 <= j < self.records.len() && self.records[j].id@ == x;
                if j != i {
                    pre.lemma_at(j);
                }
            }
            if pre@.contains_key(x) && x != k {
                let j = choose|j: int| 0 <= j < pre.records.len() && pre.records[j].id@ == x;
                self.lemma_at(j);
            }
            if x == k {
                self.lemma_at(i);
            }
        }
        assert forall|x: Seq<char>| #[trigger] self@.contains_key(x) implies self@[x] == pre@.insert(k, v)[x] by {
            let j = choose|j: int| 0 <= j < self.records.len() && self.records[j].id@ == x;
            self.lemma_at(j);
            if j != i {
                pre.lemma_at(j);
            }
        }
        assert(self@ =~= pre@.insert(k, v));
    }

    proof fn lemma_push(&self, pre: Self, k: Seq<char>, v: Article)
        requires
            pre.wf(),
            !pre@.contains_key(k),
            self.records@ == pre.records@.push(v),
            v.id@ == k,
        ensures
            self.wf(),
            self@ == pre@.insert(k, v),
    {
        let n = pre.records.len() as int;
        assert forall|a: int, c: int|
            0 <= a < c < self.records.len() implies self.records[a].id@ != self.records[c].id@ by {
            if c == n {
                pre.lemma_at(a);
            } else {
                assert(self.records[a] == pre.records[a]);
                assert(self.records[c] == pre.records[c]);
            }
        }
        assert forall|x: Seq<char>| #[trigger] self@.contains_key(x) == pre@.insert(k, v).contains_key(x) by {
            if self@.contains_key(x) {
                let j = choose|j: int| 0 <= j < self.records.len() && self.records[j].id@ == x;
                if j != n {
                    assert(self.records[j] == pre.records[j]);
                    pre.lemma_at(j);
                }
            }
            if pre@.contains_key(x) {
                let j = choose|j: int| 0 <= j < pre.records.len() && pre.records[j].id@ == x;
                assert(self.records[j] == pre.records[j]);
                self.lemma_at(j);
            }
            if x == k {
                self.lemma_at(n);
            }
        }
        assert forall|x: Seq<char>| #[trigger] self@.contains_key(x) implies self@[x] == pre@.insert(k, v)[x] by {
            let j = choose|j: int| 0 <= j < self.records.len() && self.records[j].id@ == x;
            self.lemma_at(j);
            if j != n {
                assert(self.records[j] == pre.records[j]);
                pre.lemma_at(j);
            }
        }
        assert(self@ =~= pre@.insert(k, v));
    }

    /// Every record, each once, in storage order.
    pub fn everything(&self) -> (r: Vec<&Article>)
        requires
            self.wf(),
        ensures
            forall|i: int| 0 <= i < r@.len() ==> self@.contains_key(#[trigger] r@[i].id@) && self@[r@[i].id@] == *r@[i],
            forall|k: Seq<char>| #[trigger] self@.contains_key(k) ==> exists|i: int| 0 <= i < r@.len() && r@[i].id@ == k,
            forall|i: int, j: int| 0 <= i < j < r@.len() ==> r@[i].id@ != r@[j].id@,
    {
        let mut r: Vec<&Article> = Vec::new();
        let mut i: usize = 0;
        while i < self.records.len()
            invariant
                self.wf(),
                i <= self.records.len(),
                r@.len() == i,
                forall|a: int| 0 <= a < i ==> *r@[a] == self.records[a],
            decreases self.records.len() - i,
        {
            r.push(&self.records[i]);
            i = i + 1;
        }
        proof {
            assert forall|a: int| 0 <= a < r@.len() implies self@.contains_key(#[trigger] r@[a].id@) && self@[r@[a].id@] == *r@[a] by {
                self.lemma_at(a);
            }
            assert forall|k: Seq<char>| #[trigger] self@.contains_key(k) implies exists|a: int| 0 <= a < r@.len() && r@[a].id@ == k by {
                let j = choose|j: int| 0 <= j < self.records.len() && self.records[j].id@ == k;
                assert(r@[j].id@ == k);
            }
        }
        r
    }

    /// The records whose status is `status`, each once, in storage order.
    pub fn with_status(&self, status: ArticleStatus) -> (r: Vec<&Article>)
        requires
            self.wf(),
        ensures
            forall|i: int| 0 <= i < r@.len() ==> r@[i].status == status
                && self@.contains_key(r@[i].id@) && self@[r@[i].id@] == *r@[i],
            forall|k: Seq<char>| self@.contains_key(k) && (#[trigger] self@[k]).status == status
                ==> exists|i: int| 0 <= i < r@.len() && r@[i].id@ == k,
            forall|i: int, j: int| 0 <= i < j < r@.len() ==> r@[i].id@ != r@[j].id@,
    {
        let mut r: Vec<&Article> = Vec::new();
        let ghost mut idx: Seq<int> = Seq::empty();
        let mut i: usize = 0;
        while i < self.records.len()
            invariant
                self.wf(),
                i <= self.records.len(),
                idx.len() == r@.len(),
                forall|a: int| #![trigger idx[a]] 0 <= a < idx.len() ==> 0 <= idx[a] < i
                    && self.records[idx[a]] == *r@[a] && r@[a].status == status,
                forall|a: int, c: int| 0 <= a < c < idx.len() ==> idx[a] < idx[c],
                forall|j: int| 0 <= j < i && (#[trigger] self.records[j]).status == status
                    ==> exists|a: int| 0 <= a < idx.len() && idx[a] == j,
            decreases self.records.len() - i,
        {
            if self.records[i].status == status {
                let ghost before = r@;
                r.push(&self.records[i]);
                proof {
                    assert forall|a: int| 0 <= a < before.len() implies r@[a] == before[a] by {}
                    assert(*r@[before.len() as int] == self.records[i as int]);
                    let old_idx = idx;
                    idx = idx.push(i as int);
                    assert(idx[old_idx.len() as int] == i);
                    assert forall|a: int| 0 <= a < idx.len() implies 0 <= #[trigger] idx[a] < i + 1
                        && self.records[idx[a]] == *r@[a] && r@[a].status == status by {
                        if a < old_idx.len() {
                            assert(old_idx[a] == idx[a]);
                        }
                    }
                    assert forall|j: int| 0 <= j < i + 1 && (#[trigger] self.records[j]).status == status
                        implies exists|a: int| 0 <= a < idx.len() && idx[a] == j by {
                        if j < i {
                            let a = choose|a: int| 0 <= a < old_idx.len() && old_idx[a] == j;
                            assert(idx[a] == j);
                        }
                    }
                }
            }
            proof {
                assert forall|a: int| 0 <= a < idx.len() implies 0 <= #[trigger] idx[a] < i + 1
                    && self.records[idx[a]] == *r@[a] && r@[a].status == status by {}
            }
            i = i + 1;
        }
        proof {
            assert forall|a: int| 0 <= a < r@.len() implies r@[a].status == status
                && self@.contains_key(r@[a].id@) && self@[r@[a].id@] == *r@[a] by {
                assert(0 <= idx[a] < self.records.len());
                self.lemma_at(idx[a]);
            }
            assert forall|a: int, c: int| 0 <= a < c < r@.len() implies r@[a].id@ != r@[c].id@ by {
                assert(idx[a] < idx[c]);
                assert(self.records[idx[a]] == *r@[a]);
                assert(self.records[idx[c]] == *r@[c]);
            }
            assert forall|k: Seq<char>| self@.contains_key(k) && (#[trigger] self@[k]).status == status
                implies exists|a: int| 0 <= a < r@.len() && r@[a].id@ == k by {
                let j = choose|j: int| 0 <= j < self.records.len() && self.records[j].id@ == k;
                self.lemma_at(j);
                assert(self.records[j].status == status);
                let a = choose|a: int| 0 <= a < idx.len() && idx[a] == j;
                assert(r@[a].id@ == k);
            }
        }
        r
    }

    /// Applies an editor's update to the article with this id.
    pub fn update_article(&mut self, id: &str, update: ArticleUpdate) -> (r: Result<(), UpdateError>)
        requires
            old(self).wf(),
        ensures
            final(self).wf(),
            !old(self).articles_contains(id@) ==> r == Err::<(), UpdateError>(UpdateError::NotFound),
            old(self).articles_contains(id@) && (update.status matches Some(s)
                && forall|st: ArticleStatus| status_name(st) != s@)
                ==> r == Err::<(), UpdateError>(UpdateError::UnknownStatus),
            r is Err ==> final(self)@ == old(self)@,
            old(self).articles_contains(id@) && !(update.status matches Some(s)
                && forall|st: ArticleStatus| status_name(st) != s@) ==> r is Ok,
            r is Ok ==> final(self)@ == old(self)@.insert(id@, final(self)@[id@])
                && updated(final(self)@[id@], old(self)@[id@], update),
    {
        let status = match &update.status {
            Some(s) => match parse_status(s.as_str()) {
                Some(st) => Some(st),
                None => {
                    if !self.contains(id) {
                        return Err(UpdateError::NotFound);
                    }
                    return Err(UpdateError::UnknownStatus);
                },
            },
            None => None,
        };
        let ghost pre = *self;
        let mut article = match self.take(id) {
            Some(a) => a,
            None => {
                return Err(UpdateError::NotFound);
            },
        };
        let ghost before = article;
        if let Some(t) = update.title {
            article.title = t;
        }
        if let Some(c) = update.content {
            article.content.text = c;
        }
        if let Some(st) = status {
            article.status = st;
        }
        self.put(article);
        proof {
            assert(self@ =~= pre@.insert(id@, self@[id@]));
        }
        Ok(())
    }

    pub open spec fn articles_contains(&self, id: Seq<char>) -> bool {
        self@.contains_key(id)
    }
}

} // verus!

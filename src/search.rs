//! Searching the article store by status, source and text.

use vstd::prelude::*;
use crate::articles::ArticleStore;
use crate::model::{Article, ArticleStatus, SearchQuery};
use crate::text::same_text;

verus! {

/// What `str::to_lowercase` makes of a text.
pub uninterp spec fn lower_of(s: Seq<char>) -> Seq<char>;

/// Relies on `str::to_lowercase`: the result depends on the characters alone.
#[verifier::external_body]
fn lowercase(s: &str) -> (r: String)
    ensures
        r@ == lower_of(s@),
{
    s.to_lowercase()
}

/// The name under which a status is stored and searched for.
pub open spec fn status_name(s: ArticleStatus) -> Seq<char> {
    match s {
        ArticleStatus::Pending => "pending"@,
        ArticleStatus::Approved => "approved"@,
        ArticleStatus::Staged => "staged"@,
        ArticleStatus::Published => "published"@,
        ArticleStatus::Rejected => "rejected"@,
    }
}

/// The name under which a status is stored and searched for.
pub fn status_text(s: ArticleStatus) -> (r: &'static str)
    ensures
        r@ == status_name(s),
{
    match s {
        ArticleStatus::Pending => "pending",
        ArticleStatus::Approved => "approved",
        ArticleStatus::Staged => "staged",
        ArticleStatus::Published => "published",
        ArticleStatus::Rejected => "rejected",
    }
}

/// The status named `s`, if any.
pub fn parse_status(s: &str) -> (r: Option<ArticleStatus>)
    ensures
        match r {
            Some(st) => status_name(st) == s@,
            None => forall|st: ArticleStatus| status_name(st) != s@,
        },
{
    if same_text(s, "pending") {
        Some(ArticleStatus::Pending)
    } else if same_text(s, "approved") {
        Some(ArticleStatus::Approved)
    } else if same_text(s, "staged") {
        Some(ArticleStatus::Staged)
    } else if same_text(s, "published") {
        Some(ArticleStatus::Published)
    } else if same_text(s, "rejected") {
        Some(ArticleStatus::Rejected)
    } else {
        None
    }
}

/// `needle` occurs in `hay`.
pub open spec fn occurs_in(needle: Seq<char>, hay: Seq<char>) -> bool {
    exists|i: int| 0 <= i && i + needle.len() <= hay.len() && #[trigger] hay.subrange(i, i + needle.len()) == needle
}

/// Tells whether `needle` occurs in `hay`.
pub fn occurs(needle: &str, hay: &str) -> (r: bool)
    ensures
        r == occurs_in(needle@, hay@),
{
    let n = hay.unicode_len();
    let m = needle.unicode_len();
    if m > n {
        proof {
            assert forall|i: int| 0 <= i && i + m <= n implies #[trigger] hay@.subrange(i, i + needle@.len()) != needle@ by {}
        }
        return false;
    }
    let mut i: usize = 0;
    while i <= n - m
        invariant
            n == hay@.len(),
            m == needle@.len(),
            m <= n,
            i <= n - m,
            forall|j: int| 0 <= j < i ==> #[trigger] hay@.subrange(j, j + m) != needle@,
        decreases n - m - i,
    {
        let window = hay.substring_char(i, i + m);
        if same_text(window, needle) {
            return true;
        }
        if i == n - m {
            proof {
                assert forall|j: int| 0 <= j && j + needle@.len() <= hay@.len() implies #[trigger] hay@.subrange(j, j + needle@.len()) != needle@ by {
                    assert(j <= i);
                }
            }
            return false;
        }
        i = i + 1;
    }
    false
}

/// A text search term matches a title or body when it occurs in either, all
/// three already lowercased.
pub open spec fn text_matches(title_lower: Seq<char>, content_lower: Seq<char>, term_lower: Seq<char>) -> bool {
    occurs_in(term_lower, title_lower) || occurs_in(term_lower, content_lower)
}

/// Tells whether the lowercased term occurs in the lowercased title or body.
pub fn matches_lowered(title_lower: &str, content_lower: &str, term_lower: &str) -> (r: bool)
    ensures
        r == text_matches(title_lower@, content_lower@, term_lower@),
{
    occurs(term_lower, title_lower) || occurs(term_lower, content_lower)
}

/// Article `a` meets every filter of `q` that is set; text matches ignore case.
pub open spec fn meets(q: SearchQuery, a: Article) -> bool {
    &&& (q.status matches Some(s) ==> status_name(a.status) == s@)
    &&& (q.source matches Some(s) ==> a.source@ == s@)
    &&& (q.text matches Some(t) ==> text_matches(lower_of(a.title@), lower_of(a.content.text@), lower_of(t@)))
}

/// Tells whether `article` meets every filter of `query` that is set.
pub fn matches_query(query: &SearchQuery, article: &Article) -> (r: bool)
    ensures
        r == meets(*query, *article),
{
    if let Some(s) = &query.status {
        if !same_text(status_text(article.status), s.as_str()) {
            return false;
        }
    }
    if let Some(s) = &query.source {
        if !same_text(article.source.as_str(), s.as_str()) {
            return false;
        }
    }
    match &query.text {
        Some(t) => {
            let title = lowercase(article.title.as_str());
            let content = lowercase(article.content.text.as_str());
            let term = lowercase(t.as_str());
            matches_lowered(title.as_str(), content.as_str(), term.as_str())
        },
        None => true,
    }
}

impl ArticleStore {
    /// The articles that meet `query`, each once.
    pub fn search(&self, query: &SearchQuery) -> (r: Vec<&Article>)
        requires
            self.wf(),
        ensures
            forall|i: int| 0 <= i < r@.len() ==> meets(*query, *r@[i])
                && self@.contains_key(r@[i].id@) && self@[r@[i].id@] == *r@[i],
            forall|k: Seq<char>| self@.contains_key(k) && meets(*query, #[trigger] self@[k])
                ==> exists|i: int| 0 <= i < r@.len() && r@[i].id@ == k,
            forall|i: int, j: int| 0 <= i < j < r@.len() ==> r@[i].id@ != r@[j].id@,
    {
        let all = self.everything();
        let mut r: Vec<&Article> = Vec::new();
        let ghost mut idx: Seq<int> = Seq::empty();
        let mut i: usize = 0;
        while i < all.len()
            invariant
                i <= all@.len(),
                forall|a: int| 0 <= a < all@.len() ==> self@.contains_key(#[trigger] all@[a].id@) && self@[all@[a].id@] == *all@[a],
                forall|a: int, c: int| 0 <= a < c < all@.len() ==> all@[a].id@ != all@[c].id@,
                idx.len() == r@.len(),
                forall|a: int| #![trigger idx[a]] 0 <= a < idx.len() ==> 0 <= idx[a] < i
                    && all@[idx[a]] == r@[a] && meets(*query, *r@[a]),
                forall|a: int, c: int| 0 <= a < c < idx.len() ==> idx[a] < idx[c],
                forall|j: int| 0 <= j < i && meets(*query, *#[trigger] all@[j])
                    ==> exists|a: int| 0 <= a < idx.len() && idx[a] == j,
            decreases all@.len() - i,
        {
            if matches_query(query, all[i]) {
                let ghost before = r@;
                r.push(all[i]);
                proof {
                    let old_idx = idx;
                    idx = idx.push(i as int);
                    assert forall|a: int| 0 <= a < idx.len() implies 0 <= #[trigger] idx[a] < i + 1
                        && all@[idx[a]] == r@[a] && meets(*query, *r@[a]) by {
                        if a < old_idx.len() {
                            assert(old_idx[a] == idx[a]);
                            assert(r@[a] == before[a]);
                        }
                    }
                    assert forall|j: int| 0 <= j < i + 1 && meets(*query, *#[trigger] all@[j])
                        implies exists|a: int| 0 <= a < idx.len() && idx[a] == j by {
                        if j < i {
                            let a = choose|a: int| 0 <= a < old_idx.len() && old_idx[a] == j;
                            assert(idx[a] == j);
                        } else {
                            assert(idx[old_idx.len() as int] == j);
                        }
                    }
                }
            }
            i = i + 1;
        }
        proof {
            assert forall|a: int| 0 <= a < r@.len() implies meets(*query, *r@[a])
                && self@.contains_key(r@[a].id@) && self@[r@[a].id@] == *r@[a] by {
                assert(all@[idx[a]] == r@[a]);
                assert(self@.contains_key(all@[idx[a]].id@));
            }
            assert forall|a: int, c: int| 0 <= a < c < r@.len() implies r@[a].id@ != r@[c].id@ by {
                assert(idx[a] < idx[c]);
                assert(all@[idx[a]] == r@[a]);
                assert(all@[idx[c]] == r@[c]);
            }
            assert forall|k: Seq<char>| self@.contains_key(k) && meets(*query, #[trigger] self@[k])
                implies exists|a: int| 0 <= a < r@.len() && r@[a].id@ == k by {
                let j = choose|j: int| 0 <= j < all@.len() && all@[j].id@ == k;
                let a = choose|a: int| 0 <= a < idx.len() && idx[a] == j;
                assert(r@[a].id@ == k);
            }
        }
        r
    }
}

} // verus!

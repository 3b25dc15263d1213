//! The publisher: stages an article's pages, promotes them to production after
//! backing up what they replace, and rolls production back to a backup.

use vstd::prelude::*;
use crate::articles::ArticleStore;
use crate::backups::{
    apart, backup_folders, describes, folder_name, list_backups, restore_folder, restored,
    BackupInfo,
};
use crate::text::{dir_of, has_prefix, lemma_last_slash, last_slash, same_text, starts_with};
use crate::timestamp::timestamp_seconds;
use crate::keys::{
    article_backup_prefix, article_backup_prefix_of, restore_target, ARTICLE_BACKUPS,
    BACKUPS_ROOT, PRODUCTION_ARTICLES, PRODUCTION_ROOT, STAGING_ROOT, listing_backup_prefix,
    listing_backup_prefix_of, in_folder, language_codes, languages,
    page_file, page_file_name, production_article_key, production_article_key_of,
    production_url, production_url_of, staging_article_key, staging_article_key_of, staging_url,
    staging_url_of,
};
use crate::model::{Article, ArticleStatus};
use crate::objects::ObjectStore;
use crate::render::{article_page, listing_page, HtmlGenerator};
use vstd::utf8::encode_utf8;

verus! {

/// Why a publishing operation was refused.
#[derive(Clone, Copy, Debug, PartialEq, Eq, Structural)]
pub enum PublishError {
    /// The article, a staged page, or the named backup does not exist.
    NotFound,
    /// The article's status does not allow the operation.
    InvalidState,
    /// A rollback to the latest backup was asked for and there is no backup.
    NoBackupsAvailable,
}

/// `o` holds text equal to `t`.
pub open spec fn holds_text(o: Option<String>, t: Seq<char>) -> bool {
    match o {
        Some(s) => s@ == t,
        None => false,
    }
}

/// `a` and `b` agree on everything but their status and publishing record.
pub open spec fn same_content(a: Article, b: Article) -> bool {
    &&& a.id == b.id
    &&& a.source == b.source
    &&& a.source_url == b.source_url
    &&& a.title == b.title
    &&& a.author == b.author
    &&& a.published_date == b.published_date
    &&& a.scraped_at == b.scraped_at
    &&& a.content == b.content
    &&& a.translations == b.translations
    &&& a.metadata == b.metadata
}

/// The statuses from which an article may be staged.
pub open spec fn may_stage(s: ArticleStatus) -> bool {
    s == ArticleStatus::Approved || s == ArticleStatus::Staged
}

/// The statuses from which an article may be promoted to production.
pub open spec fn may_promote(s: ArticleStatus) -> bool {
    s == ArticleStatus::Staged || s == ArticleStatus::Published
}

/// `a` is `before`, the record of article `id`, after staging by `actor` at `now`.
pub open spec fn staged_record(a: Article, before: Article, id: Seq<char>, actor: Seq<char>, now: i64, domain: Seq<char>) -> bool {
    &&& a.id@ == id
    &&& same_content(a, before)
    &&& a.status == ArticleStatus::Staged
    &&& a.publishing.staged_at == Some(now)
    &&& holds_text(a.publishing.staged_by, actor)
    &&& holds_text(a.publishing.staging_url, staging_url(domain, id))
    &&& a.publishing.published_at == before.publishing.published_at
    &&& a.publishing.published_by == before.publishing.published_by
    &&& a.publishing.production_url == before.publishing.production_url
    &&& a.publishing.version == before.publishing.version
}

/// `m` with the staging pages of `a` (under the id `id`) written in every language.
pub open spec fn with_staging_pages(m: Map<Seq<char>, Seq<u8>>, g: HtmlGenerator, a: Article, id: Seq<char>) -> Map<Seq<char>, Seq<u8>> {
    m.insert(staging_article_key(id, "en"@), encode_utf8(article_page(g, a, "en"@)))
        .insert(staging_article_key(id, "es"@), encode_utf8(article_page(g, a, "es"@)))
        .insert(staging_article_key(id, "uk"@), encode_utf8(article_page(g, a, "uk"@)))
}

/// `a` is `before`, the record of article `id`, after its promotion to
/// production by `actor` at `now`.
pub open spec fn promoted_record(a: Article, before: Article, id: Seq<char>, actor: Seq<char>, now: i64, domain: Seq<char>) -> bool {
    &&& a.id@ == id
    &&& same_content(a, before)
    &&& a.status == ArticleStatus::Published
    &&& a.publishing.published_at == Some(now)
    &&& holds_text(a.publishing.published_by, actor)
    &&& holds_text(a.publishing.production_url, production_url(domain, id))
    &&& a.publishing.version == before.publishing.version + 1
    &&& a.publishing.staged_at == before.publishing.staged_at
    &&& a.publishing.staged_by == before.publishing.staged_by
    &&& a.publishing.staging_url == before.publishing.staging_url
}

/// Where the backup taken at `ts` keeps the production page of article `id` in `lang`.
pub open spec fn article_backup_key(id: Seq<char>, ts: Seq<char>, lang: Seq<char>) -> Seq<char> {
    article_backup_prefix(id, ts) + page_file(id, lang)
}

/// The staging page of article `id` exists in every language.
pub open spec fn fully_staged(m: Map<Seq<char>, Seq<u8>>, id: Seq<char>) -> bool {
    forall|j: int| 0 <= j < 3 ==> m.contains_key(#[trigger] staging_article_key(id, languages()[j]))
}

/// `m` after the production page of article `id` in `lang`, if there is one, was
/// copied into the backup taken at `ts`.
pub open spec fn backup_step(m: Map<Seq<char>, Seq<u8>>, id: Seq<char>, ts: Seq<char>, lang: Seq<char>) -> Map<Seq<char>, Seq<u8>> {
    if m.contains_key(production_article_key(id, lang)) {
        m.insert(article_backup_key(id, ts, lang), m[production_article_key(id, lang)])
    } else {
        m
    }
}

/// `m` after the backup step of the first `n` languages.
pub open spec fn backed_up(m: Map<Seq<char>, Seq<u8>>, id: Seq<char>, ts: Seq<char>, n: nat) -> Map<Seq<char>, Seq<u8>>
    decreases n,
{
    if n == 0 {
        m
    } else {
        backup_step(backed_up(m, id, ts, (n - 1) as nat), id, ts, languages()[n - 1])
    }
}

/// `m` after the staging pages of article `id` in the first `n` languages were
/// copied over their production pages.
pub open spec fn promoted(m: Map<Seq<char>, Seq<u8>>, id: Seq<char>, n: nat) -> Map<Seq<char>, Seq<u8>>
    decreases n,
{
    if n == 0 {
        m
    } else {
        let prev = promoted(m, id, (n - 1) as nat);
        let lang = languages()[n - 1];
        prev.insert(production_article_key(id, lang), prev[staging_article_key(id, lang)])
    }
}

/// `m` after a promotion of article `id` with its backup taken at `ts`.
pub open spec fn released(m: Map<Seq<char>, Seq<u8>>, id: Seq<char>, ts: Seq<char>) -> Map<Seq<char>, Seq<u8>> {
    promoted(backed_up(m, id, ts, 3), id, 3)
}

/// What a promotion to production reports.
#[derive(Debug)]
pub struct ProductionRelease {
    /// The article's version after the promotion.
    pub version: u32,
    pub production_url: String,
    /// The backup folder that the replaced pages were copied to.
    pub backup_path: String,
    /// The CDN path pattern whose cached copies are now stale.
    pub invalidation_path: String,
}

/// Every backup folder lies under `backups/`, apart from where its files go back to.
pub proof fn lemma_backup_folder(m: Map<Seq<char>, Seq<u8>>, d: Seq<char>)
    requires
        backup_folders(m).contains(d),
    ensures
        has_prefix(d, BACKUPS_ROOT@),
        apart(d, restore_target(d)),
{
    reveal_strlit("backups/");
    reveal_strlit("production/");
    reveal_strlit("production/articles/");
    let k = choose|k: Seq<char>| crate::objects::keys_under(m, BACKUPS_ROOT@).contains(k) && dir_of(k) == d;
    assert(k.subrange(0, 8)[7] == '/');
    assert(k[7] == '/');
    lemma_last_slash(k);
    assert(last_slash(k) >= 7);
    assert(d.subrange(0, 8) =~= k.subrange(0, 8));
    assert(d[0] == 'b');
    assert(restore_target(d)[0] == 'p');
}

/// Every backup folder of `m` named `ts` is among `bs`.
pub open spec fn covers_timestamp(bs: Seq<BackupInfo>, m: Map<Seq<char>, Seq<u8>>, ts: Seq<char>) -> bool {
    forall|d: Seq<char>| #[trigger] backup_folders(m).contains(d) && folder_name(d) == ts
        ==> exists|i: int| 0 <= i < bs.len() && bs[i].path@ == d
}

/// `m` after each backup folder of `bs` in turn was copied back to where it restores.
pub open spec fn restored_in_turn(m: Map<Seq<char>, Seq<u8>>, bs: Seq<BackupInfo>) -> Map<Seq<char>, Seq<u8>>
    decreases bs.len(),
{
    if bs.len() == 0 {
        m
    } else {
        let prev = restored_in_turn(m, bs.drop_last());
        restored(prev, bs.last().path@, restore_target(bs.last().path@))
    }
}

/// The folder that the files of backup folder `path` go back to.
fn restore_target_of(path: &str) -> (r: &'static str)
    ensures
        r@ == restore_target(path@),
{
    if starts_with(path, ARTICLE_BACKUPS) {
        PRODUCTION_ARTICLES
    } else {
        PRODUCTION_ROOT
    }
}

/// The files of the listing page: one per language, and the default (English) one.
pub open spec fn listing_files() -> Seq<Seq<char>> {
    seq!["index-en.html"@, "index-es.html"@, "index-uk.html"@, "index.html"@]
}

/// The language that each listing file is rendered in.
pub open spec fn listing_langs() -> Seq<Seq<char>> {
    seq!["en"@, "es"@, "uk"@, "en"@]
}

/// The listing file at `i`, with its language.
fn listing_file_at(i: usize) -> (r: (&'static str, &'static str))
    requires
        i < 4,
    ensures
        r.0@ == listing_files()[i as int],
        r.1@ == listing_langs()[i as int],
{
    if i == 0 {
        ("index-en.html", "en")
    } else if i == 1 {
        ("index-es.html", "es")
    } else if i == 2 {
        ("index-uk.html", "uk")
    } else {
        ("index.html", "en")
    }
}

/// `s` lists the published articles of `articles`, each once.
pub open spec fn lists_published(s: Seq<Article>, articles: Map<Seq<char>, Article>) -> bool {
    &&& forall|i: int| 0 <= i < s.len() ==> s[i].status == ArticleStatus::Published
        && articles.contains_key(#[trigger] s[i].id@) && articles[s[i].id@] == s[i]
    &&& forall|k: Seq<char>| articles.contains_key(k) && (#[trigger] articles[k]).status == ArticleStatus::Published
        ==> exists|i: int| 0 <= i < s.len() && s[i].id@ == k
    &&& forall|i: int, j: int| 0 <= i < j < s.len() ==> s[i].id@ != s[j].id@
}

/// `m` with the staging listing pages of `s` written for the first `n` listing files.
pub open spec fn with_listing_pages(m: Map<Seq<char>, Seq<u8>>, g: HtmlGenerator, s: Seq<Article>, n: nat) -> Map<Seq<char>, Seq<u8>>
    decreases n,
{
    if n == 0 {
        m
    } else {
        with_listing_pages(m, g, s, (n - 1) as nat).insert(
            STAGING_ROOT@ + listing_files()[n - 1],
            encode_utf8(listing_page(g, s, listing_langs()[n - 1])),
        )
    }
}

/// Every staging listing file exists.
pub open spec fn listing_staged(m: Map<Seq<char>, Seq<u8>>) -> bool {
    forall|j: int| 0 <= j < 4 ==> m.contains_key(#[trigger] (STAGING_ROOT@ + listing_files()[j]))
}

/// `m` after the production listing files among the first `n`, where they
/// exist, were copied into the listing backup taken at `ts`.
pub open spec fn listing_backed_up(m: Map<Seq<char>, Seq<u8>>, ts: Seq<char>, n: nat) -> Map<Seq<char>, Seq<u8>>
    decreases n,
{
    if n == 0 {
        m
    } else {
        let prev = listing_backed_up(m, ts, (n - 1) as nat);
        let f = listing_files()[n - 1];
        if prev.contains_key(PRODUCTION_ROOT@ + f) {
            prev.insert(listing_backup_prefix(ts) + f, prev[PRODUCTION_ROOT@ + f])
        } else {
            prev
        }
    }
}

/// `m` after the first `n` staging listing files were copied over production.
pub open spec fn listing_promoted(m: Map<Seq<char>, Seq<u8>>, n: nat) -> Map<Seq<char>, Seq<u8>>
    decreases n,
{
    if n == 0 {
        m
    } else {
        let prev = listing_promoted(m, (n - 1) as nat);
        let f = listing_files()[n - 1];
        prev.insert(PRODUCTION_ROOT@ + f, prev[STAGING_ROOT@ + f])
    }
}

/// What a promotion of the listing page reports.
#[derive(Debug)]
pub struct ListingRelease {
    /// The backup folder that the replaced listing files were copied to.
    pub backup_path: String,
    /// The CDN path pattern whose cached copies are now stale.
    pub invalidation_path: String,
}

/// Article records, rendered pages and the domain that public URLs name.
pub struct Publisher {
    pub articles: ArticleStore,
    pub objects: ObjectStore,
    pub generator: HtmlGenerator,
    pub domain: String,
}

impl Publisher {
    pub open spec fn wf(&self) -> bool {
        self.articles.wf() && self.objects.wf()
    }

    /// A publisher over the given stores, naming `domain` in public URLs.
    pub fn new(articles: ArticleStore, objects: ObjectStore, domain: String) -> (r: Self)
        requires
            articles.wf(),
            objects.wf(),
        ensures
            r.wf(),
            r.articles@ == articles@,
            r.objects@ == objects@,
            r.domain@ == domain@,
    {
        Publisher { articles, objects, generator: HtmlGenerator::new(), domain }
    }

    /// Renders the article's detail page in every language to the staging
    /// location and marks the article staged; returns its staging URL.
    pub fn publish_article_to_staging(&mut self, article_id: &str, actor: &str, now: i64) -> (r: Result<String, PublishError>)
        requires
            old(self).wf(),
        ensures
            final(self).wf(),
            final(self).generator == old(self).generator,
            final(self).domain == old(self).domain,
            !old(self).articles@.contains_key(article_id@) ==> r == Err::<String, PublishError>(PublishError::NotFound),
            old(self).articles@.contains_key(article_id@) && !may_stage(old(self).articles@[article_id@].status)
                ==> r == Err::<String, PublishError>(PublishError::InvalidState),
            r is Err ==> final(self).articles@ == old(self).articles@ && final(self).objects@ == old(self).objects@,
            old(self).articles@.contains_key(article_id@) && may_stage(old(self).articles@[article_id@].status)
                ==> r is Ok,
            r matches Ok(url) ==> {
                let before = old(self).articles@[article_id@];
                let after = final(self).articles@[article_id@];
                &&& url@ == staging_url(old(self).domain@, article_id@)
                &&& final(self).articles@ == old(self).articles@.insert(article_id@, after)
                &&& staged_record(after, before, article_id@, actor@, now, old(self).domain@)
                &&& holds_text(after.publishing.staging_url, url@)
                &&& final(self).objects@ == with_staging_pages(old(self).objects@, old(self).generator, before, article_id@)
            },
    {
        let ghost start = *self;
        let mut article = match self.articles.take(article_id) {
            Some(a) => a,
            None => {
                return Err(PublishError::NotFound);
            },
        };
        let ghost before = article;
        let ghost pre = *self;
        if !(article.status == ArticleStatus::Approved || article.status == ArticleStatus::Staged) {
            self.articles.put(article);
            assert(self.articles@ =~= start.articles@);
            return Err(PublishError::InvalidState);
        }
        let langs = language_codes();
        let mut i: usize = 0;
        while i < 3
            invariant
                self.wf(),
                langs@.len() == 3,
                forall|j: int| 0 <= j < 3 ==> #[trigger] langs@[j]@ == languages()[j],
                i <= 3,
                article == before,
                self.generator == pre.generator,
                self.domain == pre.domain,
                self.articles@ == pre.articles@,
                before.id@ == article_id@,
                self.objects@ == staged_prefix(pre.objects@, pre.generator, before, article_id@, i as nat),
            decreases 3 - i,
        {
            let lang = langs[i];
            let html = self.generator.generate_article_html(&article, lang);
            let key = staging_article_key_of(article_id, lang);
            self.objects.put(key, html.as_str().as_bytes_vec());
            i = i + 1;
        }
        proof {
            reveal_with_fuel(staged_prefix, 4);
            assert(languages()[0] == "en"@ && languages()[1] == "es"@ && languages()[2] == "uk"@);
        }
        let url = staging_url_of(self.domain.as_str(), article_id);
        article.status = ArticleStatus::Staged;
        article.publishing.staged_at = Some(now);
        article.publishing.staged_by = Some(String::from_str(actor));
        article.publishing.staging_url = Some(url.clone());
        proof {
            assert(article.id@ == article_id@);
        }
        self.articles.put(article);
        Ok(url)
    }

    /// Backs up the article's current production pages into the backup folder
    /// named by `ts`, copies its staging pages over them, and marks it published
    /// with its version one higher. The caller invalidates the returned CDN path.
    pub fn publish_article_to_production(&mut self, article_id: &str, actor: &str, now: i64, ts: &str) -> (r: Result<ProductionRelease, PublishError>)
        requires
            old(self).wf(),
            old(self).articles@.contains_key(article_id@) && may_promote(old(self).articles@[article_id@].status)
                ==> old(self).articles@[article_id@].publishing.version < u32::MAX,
        ensures
            final(self).wf(),
            final(self).generator == old(self).generator,
            final(self).domain == old(self).domain,
            !old(self).articles@.contains_key(article_id@)
                ==> r == Err::<ProductionRelease, PublishError>(PublishError::NotFound),
            old(self).articles@.contains_key(article_id@) && !may_promote(old(self).articles@[article_id@].status)
                ==> r == Err::<ProductionRelease, PublishError>(PublishError::InvalidState),
            old(self).articles@.contains_key(article_id@) && may_promote(old(self).articles@[article_id@].status)
                ==> (r is Err <==> !fully_staged(old(self).objects@, article_id@)),
            old(self).articles@.contains_key(article_id@) && may_promote(old(self).articles@[article_id@].status)
                && !fully_staged(old(self).objects@, article_id@)
                ==> r == Err::<ProductionRelease, PublishError>(PublishError::NotFound),
            r is Err ==> r == Err::<ProductionRelease, PublishError>(PublishError::NotFound)
                || r == Err::<ProductionRelease, PublishError>(PublishError::InvalidState),
            r is Err ==> final(self).articles@ == old(self).articles@ && final(self).objects@ == old(self).objects@,
            r matches Ok(rel) ==> {
                let before = old(self).articles@[article_id@];
                let after = final(self).articles@[article_id@];
                &&& final(self).articles@ == old(self).articles@.insert(article_id@, after)
                &&& promoted_record(after, before, article_id@, actor@, now, old(self).domain@)
                &&& holds_text(after.publishing.production_url, rel.production_url@)
                &&& final(self).objects@ == released(old(self).objects@, article_id@, ts@)
                &&& rel.version == after.publishing.version
                &&& rel.production_url@ == production_url(old(self).domain@, article_id@)
                &&& rel.backup_path@ == article_backup_prefix(article_id@, ts@)
                &&& rel.invalidation_path@ == "articles/"@ + article_id@ + "*"@
            },
    {
        let ghost start = *self;
        let mut article = match self.articles.take(article_id) {
            Some(a) => a,
            None => {
                return Err(PublishError::NotFound);
            },
        };
        let ghost before = article;
        let ghost pre = *self;
        if !(article.status == ArticleStatus::Staged || article.status == ArticleStatus::Published) {
            self.articles.put(article);
            assert(self.articles@ =~= start.articles@);
            return Err(PublishError::InvalidState);
        }
        assert(pre.articles@.insert(article_id@, before) =~= start.articles@);
        let langs = language_codes();
        let mut i: usize = 0;
        while i < 3
            invariant
                i <= 3,
                self.wf(),
                langs@.len() == 3,
                forall|j: int| 0 <= j < 3 ==> #[trigger] langs@[j]@ == languages()[j],
                forall|j: int| 0 <= j < i ==> self.objects@.contains_key(#[trigger] staging_article_key(article_id@, languages()[j])),
                self.objects@ == pre.objects@,
                self.articles@ == pre.articles@,
                self.generator == pre.generator,
                self.domain == pre.domain,
                article == before,
                before.id@ == article_id@,
                pre.articles@.insert(article_id@, before) == old(self).articles@,
                old(self).articles@[article_id@] == before,
                may_promote(before.status),
                pre.objects@ == old(self).objects@,
                old(self).generator == pre.generator,
                old(self).domain == pre.domain,
            decreases 3 - i,
        {
            let key = staging_article_key_of(article_id, langs[i]);
            if !self.objects.contains(key.as_str()) {
                self.articles.put(article);
                assert(self.articles@ =~= old(self).articles@);
                proof {
                    assert(!fully_staged(old(self).objects@, article_id@));
                }
                return Err(PublishError::NotFound);
            }
            i = i + 1;
        }
        let backup_path = article_backup_prefix_of(article_id, ts);
        let mut i: usize = 0;
        while i < 3
            invariant
                i <= 3,
                self.wf(),
                langs@.len() == 3,
                forall|j: int| 0 <= j < 3 ==> #[trigger] langs@[j]@ == languages()[j],
                forall|j: int| 0 <= j < 3 ==> self.objects@.contains_key(#[trigger] staging_article_key(article_id@, languages()[j])),
                backup_path@ == article_backup_prefix(article_id@, ts@),
                self.objects@ == backed_up(pre.objects@, article_id@, ts@, i as nat),
                self.articles@ == pre.articles@,
                self.generator == pre.generator,
                self.domain == pre.domain,
                article == before,
                before.id@ == article_id@,
            decreases 3 - i,
        {
            let lang = langs[i];
            let production_key = production_article_key_of(article_id, lang);
            if self.objects.contains(production_key.as_str()) {
                let file = page_file_name(article_id, lang);
                let backup_key = in_folder(backup_path.as_str(), file.as_str());
                let _ = self.objects.copy(production_key.as_str(), backup_key.as_str());
            }
            i = i + 1;
        }
        let ghost saved = self.objects@;
        let mut i: usize = 0;
        while i < 3
            invariant
                i <= 3,
                self.wf(),
                langs@.len() == 3,
                forall|j: int| 0 <= j < 3 ==> #[trigger] langs@[j]@ == languages()[j],
                forall|j: int| 0 <= j < 3 ==> self.objects@.contains_key(#[trigger] staging_article_key(article_id@, languages()[j])),
                self.objects@ == promoted(saved, article_id@, i as nat),
                self.articles@ == pre.articles@,
                self.generator == pre.generator,
                self.domain == pre.domain,
                article == before,
                before.id@ == article_id@,
            decreases 3 - i,
        {
            let lang = langs[i];
            let staging_key = staging_article_key_of(article_id, lang);
            let production_key = production_article_key_of(article_id, lang);
            let _ = self.objects.copy(staging_key.as_str(), production_key.as_str());
            i = i + 1;
        }
        let url = production_url_of(self.domain.as_str(), article_id);
        article.status = ArticleStatus::Published;
        article.publishing.published_at = Some(now);
        article.publishing.published_by = Some(String::from_str(actor));
        article.publishing.production_url = Some(url.clone());
        article.publishing.version = article.publishing.version + 1;
        let version = article.publishing.version;
        self.articles.put(article);
        let mut invalidation_path = String::from_str("articles/");
        invalidation_path.append(article_id);
        invalidation_path.append("*");
        Ok(ProductionRelease { version, production_url: url, backup_path, invalidation_path })
    }

    /// The backup folders of the object store, each once, the most recent first.
    pub fn list_backups(&self) -> (r: Vec<BackupInfo>)
        requires
            self.wf(),
        ensures
            crate::backups::newest_first(r@),
            forall|i: int| 0 <= i < r@.len() ==> describes(self.objects@, #[trigger] r@[i]),
            forall|i: int, j: int| 0 <= i < j < r@.len() ==> r@[i].path@ != r@[j].path@,
            forall|d: Seq<char>| #[trigger] backup_folders(self.objects@).contains(d)
                ==> exists|i: int| 0 <= i < r@.len() && r@[i].path@ == d,
    {
        list_backups(&self.objects)
    }

    /// Copies backup folders back to production: every folder that
    /// `list_backups` reports with the timestamp `backup_timestamp`, in that
    /// order, or the most recent folder when no timestamp is given. Article
    /// records are left as they are. Returns the backups that were restored;
    /// the caller invalidates the whole production cache.
    pub fn rollback(&mut self, backup_timestamp: Option<&str>) -> (r: Result<Vec<BackupInfo>, PublishError>)
        requires
            old(self).wf(),
        ensures
            backup_timestamp matches Some(ts) ==> (r matches Ok(bs) ==> forall|i: int| 0 <= i < bs@.len()
                ==> (#[trigger] bs@[i]).timestamp@ == ts@),
            backup_timestamp matches Some(ts) ==> (r matches Ok(bs) ==> covers_timestamp(bs@, old(self).objects@, ts@)),
            final(self).wf(),
            final(self).generator == old(self).generator,
            final(self).domain == old(self).domain,
            final(self).articles@ == old(self).articles@,
            backup_timestamp is None ==> (r is Err <==> backup_folders(old(self).objects@) == Set::<Seq<char>>::empty()),
            backup_timestamp is None && r is Err ==> r == Err::<Vec<BackupInfo>, PublishError>(PublishError::NoBackupsAvailable),
            backup_timestamp matches Some(ts) ==> (r is Err <==> !exists|d: Seq<char>|
                #[trigger] backup_folders(old(self).objects@).contains(d) && folder_name(d) == ts@),
            backup_timestamp is Some && r is Err ==> r == Err::<Vec<BackupInfo>, PublishError>(PublishError::NotFound),
            r is Err ==> final(self).objects@ == old(self).objects@,
            r matches Ok(bs) ==> {
                &&& final(self).objects@ == restored_in_turn(old(self).objects@, bs@)
                &&& forall|i: int| 0 <= i < bs@.len() ==> describes(old(self).objects@, #[trigger] bs@[i])
                &&& (backup_timestamp is None ==> bs@.len() == 1 && forall|d: Seq<char>|
                    #[trigger] backup_folders(old(self).objects@).contains(d)
                    ==> bs@[0].created_at >= timestamp_seconds(folder_name(d)))
            },
    {
        let ghost m0 = self.objects@;
        let mut backups = list_backups(&self.objects);
        match backup_timestamp {
            None => {
                if backups.len() == 0 {
                    proof {
                        assert forall|d: Seq<char>| !backup_folders(self.objects@).contains(d) by {
                            if backup_folders(self.objects@).contains(d) {
                                let j = choose|j: int| 0 <= j < backups@.len() && backups@[j].path@ == d;
                            }
                        }
                        assert(backup_folders(self.objects@) =~= Set::<Seq<char>>::empty());
                    }
                    return Err(PublishError::NoBackupsAvailable);
                }
                proof {
                    assert(describes(self.objects@, backups@[0]));
                    assert forall|d: Seq<char>| #[trigger] backup_folders(self.objects@).contains(d)
                        implies backups@[0].created_at >= timestamp_seconds(folder_name(d)) by {
                        let j = choose|j: int| 0 <= j < backups@.len() && backups@[j].path@ == d;
                        assert(describes(self.objects@, backups@[j]));
                        if j > 0 {
                            assert(backups@[0].created_at >= backups@[j].created_at);
                        }
                    }
                }
                let ghost first = backups@[0];
                proof {
                    assert(describes(m0, first));
                    assert(forall|d: Seq<char>| #[trigger] backup_folders(m0).contains(d)
                        ==> first.created_at >= timestamp_seconds(folder_name(d)));
                }
                let chosen = backups.remove(0);
                proof {
                    assert(chosen == first);
                    lemma_backup_folder(self.objects@, chosen.path@);
                }
                let target = restore_target_of(chosen.path.as_str());
                restore_folder(&mut self.objects, chosen.path.as_str(), target);
                let mut restored_ones: Vec<BackupInfo> = Vec::new();
                restored_ones.push(chosen);
                proof {
                    let s = restored_ones@;
                    reveal_with_fuel(restored_in_turn, 2);
                    assert(s.drop_last() =~= Seq::<BackupInfo>::empty());
                    assert(s[0] == chosen);
                    assert(restored_in_turn(m0, s) == restored(m0, s[0].path@, restore_target(s[0].path@)));
                    assert(forall|d: Seq<char>| #[trigger] backup_folders(m0).contains(d)
                        ==> s[0].created_at >= timestamp_seconds(folder_name(d)));
                }
                Ok(restored_ones)
            },
            Some(ts) => {
                let ghost all = backups@;
                let mut restored_ones: Vec<BackupInfo> = Vec::new();
                let mut k: usize = 0;
                let n = backups.len();
                assert(backups@ =~= all.subrange(0, n as int));
                while backups.len() > 0
                    invariant
                        self.wf(),
                        self.generator == old(self).generator,
                        self.domain == old(self).domain,
                        self.articles@ == old(self).articles@,
                        m0 == old(self).objects@,
                        n == all.len(),
                        k + backups@.len() == n,
                        backups@ == all.subrange(k as int, n as int),
                        forall|i: int| 0 <= i < n ==> describes(m0, #[trigger] all[i]),
                        forall|d: Seq<char>| #[trigger] backup_folders(m0).contains(d)
                            ==> exists|i: int| 0 <= i < n && all[i].path@ == d,
                        self.objects@ == restored_in_turn(m0, restored_ones@),
                        forall|i: int| 0 <= i < restored_ones@.len() ==> describes(m0, #[trigger] restored_ones@[i])
                            && restored_ones@[i].timestamp@ == ts@,
                        forall|i: int| 0 <= i < k && (#[trigger] all[i]).timestamp@ == ts@
                            ==> exists|j: int| 0 <= j < restored_ones@.len() && restored_ones@[j].path@ == all[i].path@,
                    decreases backups@.len(),
                {
                    let b = backups.remove(0);
                    proof {
                        assert(b == all[k as int]);
                        assert(backups@ =~= all.subrange(k + 1, n as int));
                    }
                    if same_text(b.timestamp.as_str(), ts) {
                        proof {
                            lemma_backup_folder(m0, b.path@);
                        }
                        let target = restore_target_of(b.path.as_str());
                        restore_folder(&mut self.objects, b.path.as_str(), target);
                        let ghost before = restored_ones@;
                        restored_ones.push(b);
                        proof {
                            assert(restored_ones@.drop_last() =~= before);
                            assert forall|i: int| 0 <= i < k + 1 && (#[trigger] all[i]).timestamp@ == ts@
                                implies exists|j: int| 0 <= j < restored_ones@.len() && restored_ones@[j].path@ == all[i].path@ by {
                                if i == k {
                                    assert(restored_ones@[before.len() as int].path@ == all[i].path@);
                                } else {
                                    let j = choose|j: int| 0 <= j < before.len() && before[j].path@ == all[i].path@;
                                    assert(restored_ones@[j] == before[j]);
                                }
                            }
                        }
                    }
                    k = k + 1;
                }
                if restored_ones.len() == 0 {
                    proof {
                        assert forall|d: Seq<char>| #[trigger] backup_folders(m0).contains(d)
                            implies folder_name(d) != ts@ by {
                            let c = choose|c: int| 0 <= c < n && all[c].path@ == d;
                            assert(describes(m0, all[c]));
                        }
                    }
                    return Err(PublishError::NotFound);
                }
                proof {
                    assert(describes(m0, restored_ones@[0]));
                    assert(backup_folders(m0).contains(restored_ones@[0].path@));
                    assert forall|d: Seq<char>| #[trigger] backup_folders(m0).contains(d) && folder_name(d) == ts@
                        implies exists|i: int| 0 <= i < restored_ones@.len() && restored_ones@[i].path@ == d by {
                        let c = choose|c: int| 0 <= c < n && all[c].path@ == d;
                        assert(describes(m0, all[c]));
                    }
                    assert(covers_timestamp(restored_ones@, old(self).objects@, ts@));
                }
                Ok(restored_ones)
            },
        }
    }

    /// Renders the listing page of the published articles in every language,
    /// and the default one in English, to the staging location.
    pub fn publish_plp_to_staging(&mut self)
        requires
            old(self).wf(),
        ensures
            final(self).wf(),
            final(self).generator == old(self).generator,
            final(self).domain == old(self).domain,
            final(self).articles@ == old(self).articles@,
            exists|s: Seq<Article>| lists_published(s, old(self).articles@)
                && final(self).objects@ == with_listing_pages(old(self).objects@, old(self).generator, s, 4),
    {
        let ghost pre = *self;
        let published = self.articles.with_status(ArticleStatus::Published);
        let ghost s = published@.map_values(|a: &Article| *a);
        proof {
            assert forall|i: int| 0 <= i < s.len() implies s[i].status == ArticleStatus::Published
                && pre.articles@.contains_key(#[trigger] s[i].id@) && pre.articles@[s[i].id@] == s[i] by {
                assert(s[i] == *published@[i]);
            }
            assert forall|k: Seq<char>| pre.articles@.contains_key(k) && (#[trigger] pre.articles@[k]).status == ArticleStatus::Published
                implies exists|i: int| 0 <= i < s.len() && s[i].id@ == k by {
                let i = choose|i: int| 0 <= i < published@.len() && published@[i].id@ == k;
                assert(s[i] == *published@[i]);
            }
            assert forall|i: int, j: int| 0 <= i < j < s.len() implies s[i].id@ != s[j].id@ by {
                assert(s[i] == *published@[i]);
                assert(s[j] == *published@[j]);
            }
        }
        let mut i: usize = 0;
        while i < 4
            invariant
                i <= 4,
                self.objects.wf(),
                self.articles.wf(),
                self.articles@ == pre.articles@,
                self.generator == pre.generator,
                self.domain == pre.domain,
                pre == *old(self),
                s == published@.map_values(|a: &Article| *a),
                self.objects@ == with_listing_pages(pre.objects@, pre.generator, s, i as nat),
            decreases 4 - i,
        {
            let (file, lang) = listing_file_at(i);
            let html = self.generator.generate_listing_html(&published, lang);
            let key = in_folder(STAGING_ROOT, file);
            self.objects.put(key, html.as_str().as_bytes_vec());
            i = i + 1;
        }
        assert(lists_published(s, pre.articles@));
    }

    /// Backs up the production listing files into the listing backup folder
    /// named by `ts`, then copies the staging listing files over them. The
    /// caller invalidates the returned CDN path.
    pub fn publish_plp_to_production(&mut self, ts: &str) -> (r: Result<ListingRelease, PublishError>)
        requires
            old(self).wf(),
        ensures
            final(self).wf(),
            final(self).generator == old(self).generator,
            final(self).domain == old(self).domain,
            final(self).articles@ == old(self).articles@,
            r is Err <==> !listing_staged(old(self).objects@),
            r is Err ==> r == Err::<ListingRelease, PublishError>(PublishError::NotFound)
                && final(self).objects@ == old(self).objects@,
            r matches Ok(rel) ==> {
                &&& final(self).objects@ == listing_promoted(listing_backed_up(old(self).objects@, ts@, 4), 4)
                &&& rel.backup_path@ == listing_backup_prefix(ts@)
                &&& rel.invalidation_path@ == "index*"@
            },
    {
        let ghost pre = *self;
        let mut i: usize = 0;
        while i < 4
            invariant
                i <= 4,
                self.wf(),
                forall|j: int| 0 <= j < i ==> self.objects@.contains_key(#[trigger] (STAGING_ROOT@ + listing_files()[j])),
                self.objects@ == pre.objects@,
                pre == *old(self),
                self.articles@ == pre.articles@,
                self.generator == pre.generator,
                self.domain == pre.domain,
            decreases 4 - i,
        {
            let key = in_folder(STAGING_ROOT, listing_file_at(i).0);
            if !self.objects.contains(key.as_str()) {
                return Err(PublishError::NotFound);
            }
            i = i + 1;
        }
        assert(forall|j: int| 0 <= j < 4 ==> self.objects@.contains_key(#[trigger] (STAGING_ROOT@ + listing_files()[j])));
        let backup_path = listing_backup_prefix_of(ts);
        let mut i: usize = 0;
        while i < 4
            invariant
                i <= 4,
                self.wf(),
                forall|j: int| 0 <= j < 4 ==> self.objects@.contains_key(#[trigger] (STAGING_ROOT@ + listing_files()[j])),
                backup_path@ == listing_backup_prefix(ts@),
                self.objects@ == listing_backed_up(pre.objects@, ts@, i as nat),
                self.articles@ == pre.articles@,
                self.generator == pre.generator,
                self.domain == pre.domain,
            decreases 4 - i,
        {
            let file = listing_file_at(i).0;
            let production_key = in_folder(PRODUCTION_ROOT, file);
            if self.objects.contains(production_key.as_str()) {
                let backup_key = in_folder(backup_path.as_str(), file);
                let _ = self.objects.copy(production_key.as_str(), backup_key.as_str());
            }
            i = i + 1;
        }
        let ghost saved = self.objects@;
        let mut i: usize = 0;
        while i < 4
            invariant
                i <= 4,
                self.wf(),
                forall|j: int| 0 <= j < 4 ==> self.objects@.contains_key(#[trigger] (STAGING_ROOT@ + listing_files()[j])),
                self.objects@ == listing_promoted(saved, i as nat),
                self.articles@ == pre.articles@,
                self.generator == pre.generator,
                self.domain == pre.domain,
            decreases 4 - i,
        {
            let file = listing_file_at(i).0;
            let staging_key = in_folder(STAGING_ROOT, file);
            let production_key = in_folder(PRODUCTION_ROOT, file);
            let _ = self.objects.copy(staging_key.as_str(), production_key.as_str());
            i = i + 1;
        }
        Ok(ListingRelease { backup_path, invalidation_path: String::from_str("index*") })
    }
}

/// `m` with the staging pages of the first `n` languages written.
pub open spec fn staged_prefix(m: Map<Seq<char>, Seq<u8>>, g: HtmlGenerator, a: Article, id: Seq<char>, n: nat) -> Map<Seq<char>, Seq<u8>>
    decreases n,
{
    if n == 0 {
        m
    } else {
        let lang = languages()[n - 1];
        staged_prefix(m, g, a, id, (n - 1) as nat).insert(staging_article_key(id, lang), encode_utf8(article_page(g, a, lang)))
    }
}

} // verus!

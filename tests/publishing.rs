use blog_pipeline::{
    list_backups, Article, ArticleContent, ArticleMetadata, ArticleStatus, ArticleStore, ObjectError,
    ObjectStore, PublishError, Publisher, PublishingMetadata,
};

fn article(id: &str, status: ArticleStatus, text: &str) -> Article {
    Article {
        id: id.to_string(),
        source: "testai".to_string(),
        source_url: "https://example.com/article".to_string(),
        title: "Test Article".to_string(),
        author: "Test Author".to_string(),
        published_date: "2024-01-01T00:00:00Z".to_string(),
        scraped_at: 1704067200,
        status,
        content: ArticleContent {
            original_html: format!("<p>{}</p>", text),
            text: text.to_string(),
            images: vec![],
        },
        translations: None,
        metadata: ArticleMetadata {
            word_count: 4,
            reading_time: "1 min".to_string(),
            tags: vec![],
        },
        publishing: PublishingMetadata::default(),
    }
}

fn publisher_with(a: Article) -> Publisher {
    let mut articles = ArticleStore::new();
    articles.put(a);
    Publisher::new(articles, ObjectStore::new(), "example.com".to_string())
}

fn body(p: &Publisher, key: &str) -> Option<Vec<u8>> {
    p.objects.get(key).cloned()
}

fn status_of(p: &Publisher, id: &str) -> ArticleStatus {
    p.articles.get(id).unwrap().status
}

fn version_of(p: &Publisher, id: &str) -> u32 {
    p.articles.get(id).unwrap().publishing.version
}

#[test]
fn staging_an_approved_article() {
    let mut p = publisher_with(article("a1", ArticleStatus::Approved, "First version."));
    let url = p.publish_article_to_staging("a1", "alice", 1000).unwrap();
    assert_eq!(url, "https://staging.example.com/articles/a1-en.html");
    assert_eq!(status_of(&p, "a1"), ArticleStatus::Staged);
    let a = p.articles.get("a1").unwrap();
    assert_eq!(a.publishing.staging_url.as_deref(), Some("https://staging.example.com/articles/a1-en.html"));
    assert_eq!(a.publishing.staged_by.as_deref(), Some("alice"));
    assert_eq!(a.publishing.staged_at, Some(1000));
    for lang in ["en", "es", "uk"] {
        assert!(p.objects.contains(&format!("staging/articles/a1-{}.html", lang)));
    }
    assert!(!p.objects.contains("production/articles/a1-en.html"));
}

#[test]
fn first_promotion_backs_up_nothing() {
    let mut p = publisher_with(article("a1", ArticleStatus::Approved, "First version."));
    p.publish_article_to_staging("a1", "alice", 1000).unwrap();
    let rel = p.publish_article_to_production("a1", "alice", 2000, "2024-11-08-14-30").unwrap();
    assert_eq!(rel.version, 1);
    assert_eq!(rel.production_url, "https://example.com/articles/a1-en.html");
    assert_eq!(rel.invalidation_path, "articles/a1*");
    assert_eq!(status_of(&p, "a1"), ArticleStatus::Published);
    assert_eq!(version_of(&p, "a1"), 1);
    for lang in ["en", "es", "uk"] {
        let staged = body(&p, &format!("staging/articles/a1-{}.html", lang));
        let live = body(&p, &format!("production/articles/a1-{}.html", lang));
        assert!(live.is_some());
        assert_eq!(staged, live);
    }
    assert!(p.objects.keys_with_prefix("backups/").is_empty());
    assert!(list_backups(&p.objects).is_empty());
}

fn published_twice() -> (Publisher, Vec<u8>) {
    let mut p = publisher_with(article("a1", ArticleStatus::Approved, "First version."));
    p.publish_article_to_staging("a1", "alice", 1000).unwrap();
    p.publish_article_to_production("a1", "alice", 2000, "2024-11-08-14-30").unwrap();
    let first = body(&p, "production/articles/a1-en.html").unwrap();
    let mut a = p.articles.take("a1").unwrap();
    a.content.text = "Second version.".to_string();
    a.status = ArticleStatus::Approved;
    p.articles.put(a);
    p.publish_article_to_staging("a1", "alice", 3000).unwrap();
    p.publish_article_to_production("a1", "alice", 4000, "2024-11-08-14-31").unwrap();
    (p, first)
}

#[test]
fn second_promotion_backs_up_the_first() {
    let (p, first) = published_twice();
    assert_eq!(version_of(&p, "a1"), 2);
    let backup = body(&p, "backups/articles/a1/2024-11-08-14-31/a1-en.html");
    assert_eq!(backup, Some(first.clone()));
    assert_ne!(body(&p, "production/articles/a1-en.html"), Some(first));
    let backups = list_backups(&p.objects);
    assert_eq!(backups.len(), 1);
    assert_eq!(backups[0].path, "backups/articles/a1/2024-11-08-14-31/");
    assert_eq!(backups[0].timestamp, "2024-11-08-14-31");
    assert_eq!(backups[0].created_at, 1731076260);
}

#[test]
fn rollback_restores_the_previous_page() {
    let (mut p, first) = published_twice();
    let restored = p.rollback(None).unwrap();
    assert_eq!(restored.len(), 1);
    assert_eq!(restored[0].timestamp, "2024-11-08-14-31");
    assert_eq!(body(&p, "production/articles/a1-en.html"), Some(first));
    assert_eq!(version_of(&p, "a1"), 2);
    assert_eq!(status_of(&p, "a1"), ArticleStatus::Published);
}

#[test]
fn promoting_a_pending_article_is_refused() {
    let mut p = publisher_with(article("a1", ArticleStatus::Pending, "Text."));
    let r = p.publish_article_to_production("a1", "alice", 2000, "2024-11-08-14-30");
    assert_eq!(r.err(), Some(PublishError::InvalidState));
    assert!(p.objects.keys_with_prefix("").is_empty());
    assert_eq!(status_of(&p, "a1"), ArticleStatus::Pending);
}

#[test]
fn rollback_to_a_missing_backup_is_refused() {
    let (mut p, _) = published_twice();
    let before = body(&p, "production/articles/a1-en.html");
    let r = p.rollback(Some("2099-01-01-00-00"));
    assert_eq!(r.err(), Some(PublishError::NotFound));
    assert_eq!(body(&p, "production/articles/a1-en.html"), before);
}

#[test]
fn rollback_without_backups_is_refused() {
    let mut p = publisher_with(article("a1", ArticleStatus::Approved, "Text."));
    assert_eq!(p.rollback(None).err(), Some(PublishError::NoBackupsAvailable));
}

#[test]
fn staging_is_refused_unless_approved_or_staged() {
    for status in [ArticleStatus::Pending, ArticleStatus::Published, ArticleStatus::Rejected] {
        let mut p = publisher_with(article("a1", status, "Text."));
        assert_eq!(p.publish_article_to_staging("a1", "alice", 1000).err(), Some(PublishError::InvalidState));
        assert!(p.objects.keys_with_prefix("").is_empty());
    }
    let mut p = publisher_with(article("a1", ArticleStatus::Staged, "Text."));
    assert!(p.publish_article_to_staging("a1", "alice", 1000).is_ok());
}

#[test]
fn promotion_is_refused_unless_staged_or_published() {
    for status in [ArticleStatus::Pending, ArticleStatus::Approved, ArticleStatus::Rejected] {
        let mut p = publisher_with(article("a1", status, "Text."));
        let r = p.publish_article_to_production("a1", "alice", 1000, "2024-11-08-14-30");
        assert_eq!(r.err(), Some(PublishError::InvalidState));
    }
}

#[test]
fn unknown_article_is_not_found() {
    let mut p = publisher_with(article("a1", ArticleStatus::Approved, "Text."));
    assert_eq!(p.publish_article_to_staging("zz", "alice", 1).err(), Some(PublishError::NotFound));
    let r = p.publish_article_to_production("zz", "alice", 1, "2024-11-08-14-30");
    assert_eq!(r.err(), Some(PublishError::NotFound));
}

#[test]
fn promotion_without_staged_pages_is_not_found() {
    let mut p = publisher_with(article("a1", ArticleStatus::Staged, "Text."));
    let r = p.publish_article_to_production("a1", "alice", 1, "2024-11-08-14-30");
    assert_eq!(r.err(), Some(PublishError::NotFound));
    assert_eq!(version_of(&p, "a1"), 0);
}

#[test]
fn staging_twice_gives_the_same_pages() {
    let mut p = publisher_with(article("a1", ArticleStatus::Approved, "Text."));
    p.publish_article_to_staging("a1", "alice", 1000).unwrap();
    let first = body(&p, "staging/articles/a1-uk.html");
    p.publish_article_to_staging("a1", "bob", 2000).unwrap();
    assert_eq!(body(&p, "staging/articles/a1-uk.html"), first);
    assert_eq!(status_of(&p, "a1"), ArticleStatus::Staged);
}

#[test]
fn backups_are_listed_newest_first() {
    let mut p = publisher_with(article("a1", ArticleStatus::Approved, "Text."));
    p.objects.put("backups/articles/a1/2024-11-08-14-30/a1-en.html".to_string(), vec![1]);
    p.objects.put("backups/plp/2024-12-01-09-00/index-en.html".to_string(), vec![2]);
    p.objects.put("backups/articles/a2/not-a-time/a2-en.html".to_string(), vec![3]);
    p.objects.put("backups/articles/a2/2023-01-01-00-00/a2-en.html".to_string(), vec![4]);
    p.objects.put("backups/articles/a2/2023-01-01-00-00/a2-es.html".to_string(), vec![5]);
    let backups = list_backups(&p.objects);
    let paths: Vec<&str> = backups.iter().map(|b| b.path.as_str()).collect();
    assert_eq!(
        paths,
        vec![
            "backups/plp/2024-12-01-09-00/",
            "backups/articles/a1/2024-11-08-14-30/",
            "backups/articles/a2/2023-01-01-00-00/",
            "backups/articles/a2/not-a-time/",
        ]
    );
    assert_eq!(backups[3].created_at, 0);
    let restored = p.rollback(None).unwrap();
    assert_eq!(restored.len(), 1);
    assert_eq!(restored[0].path, "backups/plp/2024-12-01-09-00/");
    assert_eq!(body(&p, "production/index-en.html"), Some(vec![2]));
    let again = p.rollback(Some("2023-01-01-00-00")).unwrap();
    assert_eq!(again.len(), 1);
    assert_eq!(again[0].path, "backups/articles/a2/2023-01-01-00-00/");
    assert_eq!(body(&p, "production/articles/a2-es.html"), Some(vec![5]));
}

#[test]
fn listing_is_staged_then_promoted_with_backup() {
    let mut a = article("a1", ArticleStatus::Published, "Live text.");
    a.publishing.version = 1;
    let mut p = publisher_with(a);
    p.articles.put(article("a2", ArticleStatus::Pending, "Draft."));
    p.publish_plp_to_staging();
    let staged = body(&p, "staging/index-en.html").unwrap();
    let page = String::from_utf8(staged.clone()).unwrap();
    assert!(page.contains("/articles/a1-en.html"));
    assert!(!page.contains("/articles/a2-en.html"));
    assert_eq!(body(&p, "staging/index.html"), Some(staged.clone()));
    p.objects.put("production/index-en.html".to_string(), b"old".to_vec());
    let rel = p.publish_plp_to_production("2024-11-08-14-30").unwrap();
    assert_eq!(rel.backup_path, "backups/plp/2024-11-08-14-30/");
    assert_eq!(rel.invalidation_path, "index*");
    assert_eq!(body(&p, "backups/plp/2024-11-08-14-30/index-en.html"), Some(b"old".to_vec()));
    assert!(!p.objects.contains("backups/plp/2024-11-08-14-30/index-es.html"));
    assert_eq!(body(&p, "production/index-en.html"), Some(staged));
    p.rollback(None).unwrap();
    assert_eq!(body(&p, "production/index-en.html"), Some(b"old".to_vec()));
}

#[test]
fn listing_promotion_needs_staged_listing() {
    let mut p = publisher_with(article("a1", ArticleStatus::Published, "Text."));
    let r = p.publish_plp_to_production("2024-11-08-14-30");
    assert_eq!(r.err(), Some(PublishError::NotFound));
    assert!(p.objects.keys_with_prefix("").is_empty());
}

#[test]
fn object_store_overwrites_and_copies() {
    let mut s = ObjectStore::new();
    s.put("k".to_string(), vec![1]);
    s.put("k".to_string(), vec![2]);
    assert_eq!(s.get("k"), Some(&vec![2]));
    assert_eq!(s.keys_with_prefix("").len(), 1);
    assert_eq!(s.copy("missing", "k"), Err(ObjectError::NotFound));
    assert_eq!(s.get("k"), Some(&vec![2]));
    assert_eq!(s.copy("k", "j"), Ok(()));
    assert_eq!(s.get("j"), Some(&vec![2]));
    assert_eq!(s.keys_with_prefix("j").len(), 1);
    assert!(s.get("x").is_none());
}

#[test]
fn publisher_lists_its_backups() {
    let (p, _) = published_twice();
    let backups = p.list_backups();
    assert_eq!(backups.len(), 1);
    assert_eq!(backups[0].path, "backups/articles/a1/2024-11-08-14-31/");
}

#[test]
fn rollback_to_a_timestamp_restores_every_folder_of_it() {
    let mut p = publisher_with(article("a1", ArticleStatus::Approved, "Text."));
    p.objects.put("backups/articles/a1/2024-11-08-14-30/a1-en.html".to_string(), vec![1]);
    p.objects.put("backups/articles/a2/2024-11-08-14-30/a2-en.html".to_string(), vec![2]);
    p.objects.put("backups/plp/2024-11-08-14-30/index.html".to_string(), vec![3]);
    p.objects.put("backups/articles/a3/2024-11-08-14-31/a3-en.html".to_string(), vec![4]);
    let restored = p.rollback(Some("2024-11-08-14-30")).unwrap();
    assert_eq!(restored.len(), 3);
    assert_eq!(body(&p, "production/articles/a1-en.html"), Some(vec![1]));
    assert_eq!(body(&p, "production/articles/a2-en.html"), Some(vec![2]));
    assert_eq!(body(&p, "production/index.html"), Some(vec![3]));
    assert!(!p.objects.contains("production/articles/a3-en.html"));
}

#[test]
fn promotion_of_a_staged_article_without_pages_is_not_found() {
    let mut p = publisher_with(article("a1", ArticleStatus::Published, "Text."));
    p.objects.put("staging/articles/a1-en.html".to_string(), vec![1]);
    let r = p.publish_article_to_production("a1", "alice", 1, "2024-11-08-14-30");
    assert_eq!(r.err(), Some(PublishError::NotFound));
    assert!(!p.objects.contains("production/articles/a1-en.html"));
}

#[test]
fn saved_urls_name_the_requested_article() {
    let mut p = publisher_with(article("a1", ArticleStatus::Approved, "Text."));
    let staged = p.publish_article_to_staging("a1", "alice", 1).unwrap();
    assert_eq!(p.articles.get("a1").unwrap().publishing.staging_url.as_deref(), Some(staged.as_str()));
    let rel = p.publish_article_to_production("a1", "alice", 2, "2024-11-08-14-30").unwrap();
    assert_eq!(p.articles.get("a1").unwrap().publishing.production_url.as_deref(), Some(rel.production_url.as_str()));
    assert_eq!(rel.production_url, "https://example.com/articles/a1-en.html");
}

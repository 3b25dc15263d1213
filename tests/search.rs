use blog_pipeline::SearchQuery;

#[test]
fn test_search_query_creation() {
    let query = SearchQuery {
        text: Some("AI".to_string()),
        source: Some("testai".to_string()),
        date_from: None,
        date_to: None,
        language: None,
        status: Some("published".to_string()),
    };

    assert_eq!(query.text, Some("AI".to_string()));
    assert_eq!(query.source, Some("testai".to_string()));
}

use blog_pipeline::{
    matches_lowered, matches_query, occurs, parse_status, status_text, Article, ArticleContent,
    ArticleMetadata, ArticleStatus, ArticleStore, ArticleUpdate, PublishingMetadata, UpdateError,
};

fn stored(id: &str, source: &str, title: &str, status: ArticleStatus) -> Article {
    Article {
        id: id.to_string(),
        source: source.to_string(),
        source_url: String::new(),
        title: title.to_string(),
        author: String::new(),
        published_date: String::new(),
        scraped_at: 0,
        status,
        content: ArticleContent {
            original_html: String::new(),
            text: "Body text about Models.".to_string(),
            images: vec![],
        },
        translations: None,
        metadata: ArticleMetadata {
            word_count: 0,
            reading_time: String::new(),
            tags: vec![],
        },
        publishing: PublishingMetadata::default(),
    }
}

fn query(text: Option<&str>, source: Option<&str>, status: Option<&str>) -> SearchQuery {
    SearchQuery {
        text: text.map(|t| t.to_string()),
        source: source.map(|t| t.to_string()),
        date_from: None,
        date_to: None,
        language: None,
        status: status.map(|t| t.to_string()),
    }
}

#[test]
fn substring_search() {
    assert!(occurs("", "abc"));
    assert!(occurs("bc", "abc"));
    assert!(!occurs("abcd", "abc"));
    assert!(!occurs("ca", "abc"));
    assert!(matches_lowered("ai news", "", "news"));
    assert!(!matches_lowered("AI News", "", "news"));
}

#[test]
fn text_search_ignores_case() {
    let a = stored("a1", "testai", "AI News", ArticleStatus::Published);
    assert!(matches_query(&query(Some("ai"), None, None), &a));
    assert!(matches_query(&query(Some("MODELS"), None, None), &a));
    assert!(!matches_query(&query(Some("robots"), None, None), &a));
    assert_eq!(status_text(ArticleStatus::Published), "published");
}

#[test]
fn search_applies_every_filter() {
    let mut store = ArticleStore::new();
    store.put(stored("a1", "testai", "AI News", ArticleStatus::Published));
    store.put(stored("a2", "testai", "AI Draft", ArticleStatus::Pending));
    store.put(stored("a3", "techcrunch", "AI Funding", ArticleStatus::Published));
    let found = store.search(&query(Some("ai"), Some("testai"), Some("published")));
    let ids: Vec<&str> = found.iter().map(|a| a.id.as_str()).collect();
    assert_eq!(ids, vec!["a1"]);
    assert_eq!(store.search(&query(None, None, None)).len(), 3);
    assert_eq!(store.search(&query(None, None, Some("published"))).len(), 2);
}

#[test]
fn editor_updates_replace_set_fields() {
    let mut store = ArticleStore::new();
    store.put(stored("a1", "testai", "Old", ArticleStatus::Pending));
    let update = ArticleUpdate { title: Some("New".to_string()), content: None, status: Some("approved".to_string()) };
    assert_eq!(store.update_article("a1", update), Ok(()));
    let a = store.get("a1").unwrap();
    assert_eq!(a.title, "New");
    assert_eq!(a.content.text, "Body text about Models.");
    assert_eq!(a.status, ArticleStatus::Approved);
    let bad = ArticleUpdate { title: Some("X".to_string()), content: None, status: Some("live".to_string()) };
    assert_eq!(store.update_article("a1", bad), Err(UpdateError::UnknownStatus));
    assert_eq!(store.get("a1").unwrap().title, "New");
    let none = ArticleUpdate { title: None, content: None, status: None };
    assert_eq!(store.update_article("zz", none), Err(UpdateError::NotFound));
    assert_eq!(parse_status("rejected"), Some(ArticleStatus::Rejected));
    assert_eq!(parse_status("Rejected"), None);
}

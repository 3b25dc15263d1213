use blog_pipeline::{
    absolute_url, OPENAI_BASE, calculate_read_time, format_category_name, generate_id, parse_timestamp,
    word_count, ArticleMetadataRecord, ListingItem, PlaywrightParser, ScrapedoParser,
};

#[test]
fn site_names_map_to_parsers() {
    let p = ScrapedoParser::from_site_name("openai-research").unwrap();
    assert_eq!(p.name(), "openai-research");
    assert_eq!(p.listing_url(), "https://openai.com/news/research/?display=list");
    assert!(ScrapedoParser::from_site_name("unknown").is_none());
    let q = PlaywrightParser::from_site_name("openai-security").unwrap();
    assert_eq!(q.listing_url(), "https://openai.com/news/security/?display=list");
    assert!(PlaywrightParser::from_site_name("openai-research").is_none());
}

#[test]
fn urls_are_made_absolute() {
    assert_eq!(absolute_url("https://openai.com/", "/news/x"), "https://openai.com/news/x");
    assert_eq!(absolute_url(OPENAI_BASE, "img.png"), "https://openai.com/img.png");
    assert_eq!(absolute_url("https://openai.com", "//cdn.example/x.png"), "https://cdn.example/x.png");
    assert_eq!(absolute_url("https://openai.com//", "a/b"), "https://openai.com/a/b");
    assert_eq!(absolute_url("https://openai.com", "https://other/x"), "https://other/x");
}

#[test]
fn category_names() {
    assert_eq!(format_category_name("huggingface"), "Hugging Face");
    assert_eq!(format_category_name("techcrunch"), "TechCrunch");
    assert_eq!(format_category_name("testai"), "testai");
}

#[test]
fn words_and_reading_time() {
    assert_eq!(word_count("  one two\tthree\n"), 3);
    assert_eq!(word_count(""), 0);
    assert_eq!(calculate_read_time(""), 1);
    assert_eq!(calculate_read_time(&"w ".repeat(201)), 2);
    assert_eq!(calculate_read_time(&"w ".repeat(200)), 1);
}

#[test]
fn backup_timestamps_parse_to_epoch_seconds() {
    assert_eq!(parse_timestamp("2024-11-08-14-30"), 1731076200);
    assert_eq!(parse_timestamp("2024-11-08"), 0);
    assert_eq!(parse_timestamp("2024-13-08-14-30"), 0);
}

#[test]
fn record_ids_are_digests_of_identity() {
    let id = generate_id("openai-security", "Title", "News", "Jan 1");
    assert_eq!(id, "5529cb3f17615fe24738b8e1292739c60b1e518720a2b313fc618e4971e33c4d");
    let item = ListingItem {
        url: "https://openai.com/news/x".to_string(),
        title: "Title".to_string(),
        category: "News".to_string(),
        date_text: "Jan 1".to_string(),
    };
    let r = ArticleMetadataRecord::from_listing(
        "openai-security",
        &item,
        "h".to_string(),
        "t".to_string(),
        "i".to_string(),
        vec![],
        42,
    );
    assert_eq!(r.id, id);
    assert_eq!(r.url, "https://openai.com/news/x");
    assert_eq!(r.updated_at, 42);
}

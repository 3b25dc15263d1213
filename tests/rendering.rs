use blog_pipeline::{
    Article, ArticleContent, ArticleMetadata, ArticleStatus, HtmlGenerator, PublishingMetadata,
    ScrapedArticle, Translation, Translations,
};

fn sample() -> Article {
    Article {
        id: "test-123".to_string(),
        source: "Test Source".to_string(),
        source_url: "https://example.com/article".to_string(),
        title: "Test Article".to_string(),
        author: "Test Author".to_string(),
        published_date: "2024-01-01T00:00:00Z".to_string(),
        scraped_at: 1704067200,
        status: ArticleStatus::Published,
        content: ArticleContent {
            original_html: "<p>This is test content.</p>".to_string(),
            text: "This is test content.".to_string(),
            images: vec![],
        },
        translations: Some(Translations {
            es: Translation {
                title: "Artículo de Prueba".to_string(),
                content: "Este es contenido de prueba.".to_string(),
                edited: true,
                edited_at: Some(1704067200),
            },
            uk: Translation {
                title: "Тестова Стаття".to_string(),
                content: "Це тестовий вміст.".to_string(),
                edited: false,
                edited_at: None,
            },
        }),
        metadata: ArticleMetadata {
            word_count: 4,
            reading_time: "1 min".to_string(),
            tags: vec![],
        },
        publishing: PublishingMetadata {
            version: 7,
            ..PublishingMetadata::default()
        },
    }
}

#[test]
fn escapes_markup_characters() {
    let g = HtmlGenerator::new();
    assert_eq!(g.escape_html("a<b>&\"c'"), "a&lt;b&gt;&amp;&quot;c&#39;");
    assert_eq!(g.escape_html(""), "");
}

#[test]
fn paragraphs_split_on_blank_lines() {
    let g = HtmlGenerator::new();
    assert_eq!(g.format_content("one\n\ntwo & three\nfour"), "<p>one</p>\n<p>two &amp; three\nfour</p>");
    assert_eq!(g.format_content(""), "<p></p>");
}

#[test]
fn excerpts_are_cut_with_an_ellipsis() {
    let g = HtmlGenerator::new();
    assert_eq!(g.generate_excerpt("abcdef", 3), "abc...");
    assert_eq!(g.generate_excerpt("abc", 3), "abc");
}

#[test]
fn dates_and_instants_are_shown_in_long_form() {
    let g = HtmlGenerator::new();
    assert_eq!(g.format_date("2024-01-01T00:00:00Z"), "January 01, 2024");
    assert_eq!(g.format_date("yesterday"), "yesterday");
    assert_eq!(g.format_timestamp(Some(1704067200)), "2024-01-01 00:00 UTC");
    assert_eq!(g.format_timestamp(None), "Not published");
}

#[test]
fn edit_notice_only_on_edited_translations() {
    let g = HtmlGenerator::new();
    let a = sample();
    assert!(g.generate_edit_notice(&a, "es").contains("manually reviewed"));
    assert_eq!(g.generate_edit_notice(&a, "uk"), "");
    assert_eq!(g.generate_edit_notice(&a, "en"), "");
}

#[test]
fn article_pages_use_their_translation() {
    let g = HtmlGenerator::new();
    let a = sample();
    let en = g.generate_article_html(&a, "en");
    assert!(en.contains("<html lang=\"en\">"));
    assert!(en.contains("<h1>Test Article</h1>"));
    assert!(en.contains("<p>This is test content.</p>"));
    assert!(en.contains("Version: 7"));
    assert!(en.contains("January 01, 2024"));
    let es = g.generate_article_html(&a, "es");
    assert!(es.contains("Artículo de Prueba"));
    assert!(es.contains("edit-notice"));
    let uk = g.generate_article_html(&a, "uk");
    assert!(uk.contains("Тестова Стаття"));
    assert!(!uk.contains("edit-notice"));
}

#[test]
fn listing_pages_hold_one_card_per_article() {
    let g = HtmlGenerator::new();
    let a = sample();
    let mut b = sample();
    b.id = "other".to_string();
    let page = g.generate_listing_html(&vec![&a, &b], "en");
    assert!(page.contains("/articles/test-123-en.html"));
    assert!(page.contains("/articles/other-en.html"));
    assert_eq!(page.matches("<article class=\"article-card\">\n    <h2>").count(), 2);
    let card = g.generate_article_card(&a, "es");
    assert!(card.contains("Leer más"));
    assert!(card.contains("/articles/test-123-es.html"));
}

#[test]
fn stylesheet_is_the_site_css() {
    let g = HtmlGenerator::new();
    assert!(g.generate_stylesheet().starts_with("/* Reset and base styles */"));
}

#[test]
fn new_articles_are_pending_with_reading_time() {
    let scraped = ScrapedArticle {
        title: "T".to_string(),
        author: "A".to_string(),
        published_date: "2024-01-01".to_string(),
        content_html: "<p>x</p>".to_string(),
        content_text: "word ".repeat(450),
        images: vec![],
    };
    let a = Article::new("id-1".to_string(), "src", "https://x", scraped, 5);
    assert_eq!(a.status, ArticleStatus::Pending);
    assert_eq!(a.metadata.word_count, 450);
    assert_eq!(a.metadata.reading_time, "2 min");
    assert_eq!(a.publishing.version, 0);
}

fn translation(title: &str, edited: bool) -> Translation {
    Translation {
        title: title.to_string(),
        content: format!("{} body", title),
        edited,
        edited_at: if edited { Some(1) } else { None },
    }
}

#[test]
fn machine_translations_keep_hand_edits() {
    let mut a = sample();
    a.apply_translations(Translations { es: translation("es-new", false), uk: translation("uk-new", false) });
    let t = a.translations.as_ref().unwrap();
    assert_eq!(t.es.title, "Artículo de Prueba");
    assert!(t.es.edited);
    assert_eq!(t.uk.title, "uk-new");
    let mut b = sample();
    b.translations = None;
    b.apply_translations(Translations { es: translation("es-new", false), uk: translation("uk-new", false) });
    assert_eq!(b.translations.as_ref().unwrap().es.title, "es-new");
}

#[test]
fn test_html_generation() {
    let generator = HtmlGenerator::new();
    let article = Article {
        id: "test-123".to_string(),
        source: "Test Source".to_string(),
        source_url: "https://example.com/article".to_string(),
        title: "Test Article".to_string(),
        author: "Test Author".to_string(),
        published_date: "2024-01-01T00:00:00Z".to_string(),
        scraped_at: 1704067200,
        status: ArticleStatus::Published,
        content: ArticleContent {
            original_html: "<p>This is test content.</p>".to_string(),
            text: "This is test content.".to_string(),
            images: vec![],
        },
        translations: Some(Translations {
            es: Translation {
                title: "Artículo de Prueba".to_string(),
                content: "Este es contenido de prueba.".to_string(),
                edited: false,
                edited_at: None,
            },
            uk: Translation {
                title: "Тестова Стаття".to_string(),
                content: "Це тестовий вміст.".to_string(),
                edited: false,
                edited_at: None,
            },
        }),
        metadata: ArticleMetadata {
            word_count: 4,
            reading_time: "1 min".to_string(),
            tags: vec![],
        },
        publishing: PublishingMetadata::default(),
    };

    let html = generator.generate_article_html(&article, "en");
    assert!(html.contains("Test Article"));
    assert!(html.contains("This is test content"));
}

#[test]
fn titles_and_ids_are_written_as_given() {
    let g = HtmlGenerator::new().with_year("2024".to_string());
    let mut a = sample();
    a.title = "R&D <news>".to_string();
    a.id = "a&b".to_string();
    let page = g.generate_article_html(&a, "en");
    assert!(page.contains("<title>R&D <news> - AI & Tech Blog</title>"));
    assert!(page.contains("<h1>R&D <news></h1>"));
    assert!(page.contains("content=\"R&amp;D &lt;news&gt;\""));
    assert!(page.contains("&copy; 2024 AI & Tech Blog"));
    assert!(page.contains("Read original article →"));
    let listing = g.generate_listing_html(&vec![&a], "uk");
    assert!(listing.contains("/articles/a&b-uk.html"));
    assert!(listing.contains("&lang=uk"));
    assert!(listing.contains("id=\"loading\""));
    assert!(listing.contains("&copy; 2024 AI & Tech Blog"));
}

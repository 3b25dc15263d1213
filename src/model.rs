//! The records that the pipeline keeps and exchanges.

use vstd::prelude::*;
use crate::render::{decimal, push_decimal};
use crate::sites::{word_count, words};

verus! {

/// Where an article stands in its review and publishing lifecycle.
#[derive(Clone, Copy, Debug, PartialEq, Eq, Structural)]
pub enum ArticleStatus {
    /// Scraped, awaiting review.
    Pending,
    /// Reviewed and ready to stage.
    Approved,
    /// Rendered to the staging (preview) location.
    Staged,
    /// Live on production.
    Published,
    /// Declined by an editor.
    Rejected,
}

/// The scraped body of an article; it is not changed once scraped.
#[derive(Clone, Debug)]
pub struct ArticleContent {
    pub original_html: String,
    pub text: String,
    pub images: Vec<String>,
}

/// A translation of an article's title and body into one language.
#[derive(Clone, Debug)]
pub struct Translation {
    pub title: String,
    pub content: String,
    /// Set when a person has edited the translation by hand.
    pub edited: bool,
    pub edited_at: Option<i64>,
}

/// The translations of an article into Spanish and Ukrainian.
#[derive(Clone, Debug)]
pub struct Translations {
    pub es: Translation,
    pub uk: Translation,
}

/// Where and when an article was staged and published.
#[derive(Clone, Debug)]
pub struct PublishingMetadata {
    pub staged_at: Option<i64>,
    pub staged_by: Option<String>,
    pub published_at: Option<i64>,
    pub published_by: Option<String>,
    pub staging_url: Option<String>,
    pub production_url: Option<String>,
    /// Counts the promotions to production; it never goes down.
    pub version: u32,
}

impl Default for PublishingMetadata {
    fn default() -> (r: Self)
        ensures
            r.staged_at is None,
            r.staged_by is None,
            r.published_at is None,
            r.published_by is None,
            r.staging_url is None,
            r.production_url is None,
            r.version == 0,
    {
        PublishingMetadata {
            staged_at: None,
            staged_by: None,
            published_at: None,
            published_by: None,
            staging_url: None,
            production_url: None,
            version: 0,
        }
    }
}

/// Figures derived from an article's text.
#[derive(Clone, Debug)]
pub struct ArticleMetadata {
    pub word_count: usize,
    pub reading_time: String,
    pub tags: Vec<String>,
}

/// An article record as the article store keeps it.
#[derive(Clone, Debug)]
pub struct Article {
    pub id: String,
    pub source: String,
    pub source_url: String,
    pub title: String,
    pub author: String,
    pub published_date: String,
    pub scraped_at: i64,
    pub status: ArticleStatus,
    pub content: ArticleContent,
    pub translations: Option<Translations>,
    pub metadata: ArticleMetadata,
    pub publishing: PublishingMetadata,
}

impl Article {
    /// A pending article made from what a parser scraped from `source_url`, with
    /// its word count and reading time (`N min`, at 200 words a minute).
    pub fn new(id: String, source: &str, source_url: &str, scraped: ScrapedArticle, scraped_at: i64) -> (r: Self)
        ensures
            r.id == id,
            r.source@ == source@,
            r.source_url@ == source_url@,
            r.title == scraped.title,
            r.author == scraped.author,
            r.published_date == scraped.published_date,
            r.scraped_at == scraped_at,
            r.status == ArticleStatus::Pending,
            r.content.original_html == scraped.content_html,
            r.content.text == scraped.content_text,
            r.content.images == scraped.images,
            r.translations is None,
            r.metadata.word_count == words(scraped.content_text@),
            r.metadata.reading_time@ == decimal(words(scraped.content_text@) / 200) + " min"@,
            r.metadata.tags@.len() == 0,
            r.publishing.staged_at is None,
            r.publishing.published_at is None,
            r.publishing.staging_url is None,
            r.publishing.production_url is None,
            r.publishing.version == 0,
    {
        let word_count = word_count(scraped.content_text.as_str());
        let mut reading_time = String::new();
        push_decimal(&mut reading_time, (word_count / 200) as u64);
        reading_time.append(" min");
        Article {
            id,
            source: String::from_str(source),
            source_url: String::from_str(source_url),
            title: scraped.title,
            author: scraped.author,
            published_date: scraped.published_date,
            scraped_at,
            status: ArticleStatus::Pending,
            content: ArticleContent {
                original_html: scraped.content_html,
                text: scraped.content_text,
                images: scraped.images,
            },
            translations: None,
            metadata: ArticleMetadata { word_count, reading_time, tags: Vec::new() },
            publishing: PublishingMetadata::default(),
        }
    }
}

/// The translation kept for one language when fresh machine translations
/// arrive: a hand-edited one stays, any other is replaced.
pub open spec fn kept_translation(current: Option<Translation>, fresh: Translation) -> Translation {
    match current {
        Some(t) => if t.edited {
            t
        } else {
            fresh
        },
        None => fresh,
    }
}

impl Article {
    /// Takes in fresh machine translations without overwriting a translation
    /// that an editor changed by hand.
    pub fn apply_translations(&mut self, fresh: Translations)
        ensures
            final(self).translations matches Some(t) && {
                let current = old(self).translations;
                &&& t.es == kept_translation(
                    match current {
                        Some(c) => Some(c.es),
                        None => None,
                    },
                    fresh.es,
                )
                &&& t.uk == kept_translation(
                    match current {
                        Some(c) => Some(c.uk),
                        None => None,
                    },
                    fresh.uk,
                )
            },
            final(self).id == old(self).id,
            final(self).title == old(self).title,
            final(self).status == old(self).status,
            final(self).content == old(self).content,
            final(self).publishing == old(self).publishing,
            final(self).metadata == old(self).metadata,
    {
        let merged = match self.translations.take() {
            Some(current) => {
                let es = if current.es.edited {
                    current.es
                } else {
                    fresh.es
                };
                let uk = if current.uk.edited {
                    current.uk
                } else {
                    fresh.uk
                };
                Translations { es, uk }
            },
            None => fresh,
        };
        self.translations = Some(merged);
    }
}

/// One entry of a site's listing page.
#[derive(Clone, Debug)]
pub struct ListingItem {
    pub url: String,
    pub title: String,
    pub category: String,
    pub date_text: String,
}

/// A listing entry handed in by the caller instead of being scraped.
#[derive(Clone, Debug)]
pub struct ProvidedListingItem {
    pub url: String,
    pub title: String,
    pub category: String,
    pub date_text: String,
}

/// A site to scrape and how much of it.
#[derive(Clone, Debug)]
pub struct Site {
    pub name: String,
    pub top_articles: Option<usize>,
    pub articles: Vec<String>,
    pub force: bool,
    pub provided_listing: Vec<ProvidedListingItem>,
}

/// What a parser extracts from one article page.
#[derive(Clone, Debug)]
pub struct ScrapedArticle {
    pub title: String,
    pub author: String,
    pub published_date: String,
    pub content_html: String,
    pub content_text: String,
    pub images: Vec<String>,
}

/// The outcome of one scraping run.
#[derive(Debug, Default)]
pub struct ScrapeResults {
    pub new_articles: usize,
    pub errors: Vec<String>,
}

/// Filters of an article search; each one that is set must match.
#[derive(Clone, Debug)]
pub struct SearchQuery {
    pub text: Option<String>,
    pub source: Option<String>,
    pub date_from: Option<String>,
    pub date_to: Option<String>,
    pub language: Option<String>,
    pub status: Option<String>,
}

/// The articles that a search found.
#[derive(Debug)]
pub struct SearchResults {
    pub articles: Vec<Article>,
    pub total: usize,
}

/// Settings of a scraping deployment.
#[derive(Clone, Debug)]
pub struct Config {
    pub table_name: String,
    pub bucket_name: String,
    pub auto_publish: bool,
    pub max_articles_per_site: usize,
}

/// Counts of articles by status, for the admin dashboard.
#[derive(Debug)]
pub struct Stats {
    pub total: usize,
    pub pending: usize,
    pub published: usize,
    pub rejected: usize,
}

/// A request to roll production back, to a given backup or to the latest.
#[derive(Debug)]
pub struct RollbackQuery {
    pub timestamp: Option<String>,
}

/// A view, click or share of an article, as the analytics sink records it.
#[derive(Clone, Debug)]
pub struct AnalyticsEvent {
    pub article_id: String,
    pub event_type: String,
    pub timestamp: String,
    pub user_agent: Option<String>,
    pub referrer: Option<String>,
    pub country: Option<String>,
    pub device_type: Option<String>,
}

/// An editor's changes to an article; each field that is set replaces the
/// article's: its title, its body text, its status by name.
#[derive(Debug)]
pub struct ArticleUpdate {
    pub title: Option<String>,
    pub content: Option<String>,
    pub status: Option<String>,
}

/// A translation written by an editor.
#[derive(Debug)]
pub struct TranslationData {
    pub title: String,
    pub content: String,
}

/// An editor's translations, per language.
#[derive(Debug)]
pub struct TranslationUpdate {
    pub es: Option<TranslationData>,
    pub uk: Option<TranslationData>,
}

/// What a staging or production promotion reports to its caller.
#[derive(Debug)]
pub struct PublishResponse {
    pub message: String,
    pub staging_url: Option<String>,
    pub production_url: Option<String>,
    pub version: Option<u32>,
}

} // verus!

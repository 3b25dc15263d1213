//! A blog content pipeline: article records with a publishing lifecycle, an
//! object store of rendered pages, and a publisher that stages articles,
//! promotes them to production with a backup of what they replace, and rolls
//! production back to a backup.

pub mod model;
pub mod text;
pub mod keys;
pub mod objects;
pub mod articles;
pub mod timestamp;
pub mod backups;
pub mod render;
pub mod publisher;
pub mod laws;
pub mod records;
pub mod sites;
pub mod search;
pub mod cache;

pub use articles::{ArticleStore, UpdateError};
pub use cache::Cache;
pub use backups::{list_backups, BackupInfo};
pub use model::{
    AnalyticsEvent, Article, ArticleContent, ArticleMetadata, ArticleStatus, ArticleUpdate, Config, ListingItem,
    ProvidedListingItem, PublishResponse, PublishingMetadata, RollbackQuery, ScrapeResults,
    ScrapedArticle, SearchQuery, SearchResults, Site, Stats, Translation, TranslationData,
    TranslationUpdate, Translations,
};
pub use objects::{ObjectError, ObjectStore};
pub use records::ArticleMetadataRecord;
pub use publisher::{ProductionRelease, PublishError, Publisher};
pub use publisher::ListingRelease;
pub use render::HtmlGenerator;
pub use sites::{absolute_url, OPENAI_BASE, calculate_read_time, format_category_name, word_count, PlaywrightParser, ScrapedoParser};
pub use records::generate_id;
pub use search::{matches_lowered, matches_query, occurs, parse_status, status_text};
pub use timestamp::parse_timestamp;

//! The layout of object keys and public URLs.

use vstd::prelude::*;
use crate::text::has_prefix;

verus! {

pub const STAGING_ARTICLES: &'static str = "staging/articles/";
pub const PRODUCTION_ARTICLES: &'static str = "production/articles/";
pub const STAGING_ROOT: &'static str = "staging/";
pub const PRODUCTION_ROOT: &'static str = "production/";
pub const BACKUPS_ROOT: &'static str = "backups/";
pub const ARTICLE_BACKUPS: &'static str = "backups/articles/";
pub const LISTING_BACKUPS: &'static str = "backups/plp/";

/// The languages that every page is rendered in.
pub open spec fn languages() -> Seq<Seq<char>> {
    seq!["en"@, "es"@, "uk"@]
}

/// The languages that every page is rendered in, in order.
pub fn language_codes() -> (r: Vec<&'static str>)
    ensures
        r@.len() == 3,
        forall|i: int| 0 <= i < 3 ==> #[trigger] r@[i]@ == languages()[i],
{
    vec!["en", "es", "uk"]
}

/// The file name of an article's page in one language.
pub open spec fn page_file(id: Seq<char>, lang: Seq<char>) -> Seq<char> {
    id + "-"@ + lang + ".html"@
}

pub open spec fn staging_article_key(id: Seq<char>, lang: Seq<char>) -> Seq<char> {
    STAGING_ARTICLES@ + page_file(id, lang)
}

pub open spec fn production_article_key(id: Seq<char>, lang: Seq<char>) -> Seq<char> {
    PRODUCTION_ARTICLES@ + page_file(id, lang)
}

/// The folder that one backup of an article's pages is written to.
pub open spec fn article_backup_prefix(id: Seq<char>, ts: Seq<char>) -> Seq<char> {
    ARTICLE_BACKUPS@ + id + "/"@ + ts + "/"@
}

/// The folder that one backup of the listing pages is written to.
pub open spec fn listing_backup_prefix(ts: Seq<char>) -> Seq<char> {
    LISTING_BACKUPS@ + ts + "/"@
}

/// Where the files of a backup folder go back to on a rollback.
pub open spec fn restore_target(backup_prefix: Seq<char>) -> Seq<char> {
    if has_prefix(backup_prefix, ARTICLE_BACKUPS@) {
        PRODUCTION_ARTICLES@
    } else {
        PRODUCTION_ROOT@
    }
}

pub open spec fn staging_url(domain: Seq<char>, id: Seq<char>) -> Seq<char> {
    "https://staging."@ + domain + "/articles/"@ + page_file(id, "en"@)
}

pub open spec fn production_url(domain: Seq<char>, id: Seq<char>) -> Seq<char> {
    "https://"@ + domain + "/articles/"@ + page_file(id, "en"@)
}

fn concat(a: &str, b: &str) -> (r: String)
    ensures
        r@ == a@ + b@,
{
    let mut s = String::from_str(a);
    s.append(b);
    s
}

pub fn page_file_name(id: &str, lang: &str) -> (r: String)
    ensures
        r@ == page_file(id@, lang@),
{
    let mut s = String::from_str(id);
    s.append("-");
    s.append(lang);
    s.append(".html");
    s
}

pub fn staging_article_key_of(id: &str, lang: &str) -> (r: String)
    ensures
        r@ == staging_article_key(id@, lang@),
{
    let f = page_file_name(id, lang);
    concat(STAGING_ARTICLES, f.as_str())
}

pub fn production_article_key_of(id: &str, lang: &str) -> (r: String)
    ensures
        r@ == production_article_key(id@, lang@),
{
    let f = page_file_name(id, lang);
    concat(PRODUCTION_ARTICLES, f.as_str())
}

pub fn article_backup_prefix_of(id: &str, ts: &str) -> (r: String)
    ensures
        r@ == article_backup_prefix(id@, ts@),
{
    let mut s = String::from_str(ARTICLE_BACKUPS);
    s.append(id);
    s.append("/");
    s.append(ts);
    s.append("/");
    s
}

pub fn listing_backup_prefix_of(ts: &str) -> (r: String)
    ensures
        r@ == listing_backup_prefix(ts@),
{
    let mut s = String::from_str(LISTING_BACKUPS);
    s.append(ts);
    s.append("/");
    s
}

pub fn staging_url_of(domain: &str, id: &str) -> (r: String)
    ensures
        r@ == staging_url(domain@, id@),
{
    let mut s = String::from_str("https://staging.");
    s.append(domain);
    s.append("/articles/");
    let f = page_file_name(id, "en");
    s.append(f.as_str());
    s
}

pub fn production_url_of(domain: &str, id: &str) -> (r: String)
    ensures
        r@ == production_url(domain@, id@),
{
    let mut s = String::from_str("https://");
    s.append(domain);
    s.append("/articles/");
    let f = page_file_name(id, "en");
    s.append(f.as_str());
    s
}

/// Prepends a folder to a file name.
pub fn in_folder(folder: &str, file: &str) -> (r: String)
    ensures
        r@ == folder@ + file@,
{
    concat(folder, file)
}

} // verus!

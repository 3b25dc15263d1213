//! Metadata records of scraped articles, keyed by a digest of what identifies them.

use vstd::prelude::*;
use vstd::utf8::encode_utf8;
use sha2::Digest;
use crate::model::ListingItem;

verus! {

/// The lowercase hexadecimal SHA-256 digest of `b`.
pub uninterp spec fn sha256_hex(b: Seq<u8>) -> Seq<char>;

/// Relies on `sha2::Sha256::digest` and the lowercase hex formatting of its
/// output: the result depends on the bytes alone.
#[verifier::external_body]
fn sha256_hex_of(b: &Vec<u8>) -> (r: String)
    ensures
        r@ == sha256_hex(b@),
{
    format!("{:x}", sha2::Sha256::digest(b))
}

/// The text whose digest identifies an article: its parser, title, category
/// and date, separated by `|`.
pub open spec fn id_text(parser: Seq<char>, title: Seq<char>, category: Seq<char>, date_text: Seq<char>) -> Seq<char> {
    parser + "|"@ + title + "|"@ + category + "|"@ + date_text
}

/// The id of an article: the digest of the UTF-8 bytes of its `id_text`.
pub fn generate_id(parser_name: &str, title: &str, category: &str, date_text: &str) -> (r: String)
    ensures
        r@ == sha256_hex(encode_utf8(id_text(parser_name@, title@, category@, date_text@))),
{
    let mut s = String::from_str(parser_name);
    s.append("|");
    s.append(title);
    s.append("|");
    s.append(category);
    s.append("|");
    s.append(date_text);
    let bytes = s.as_str().as_bytes_vec();
    sha256_hex_of(&bytes)
}

/// Where a scraped article's files are stored, and what identifies it.
#[derive(Debug)]
pub struct ArticleMetadataRecord {
    pub id: String,
    pub parser: String,
    pub title: String,
    pub category: String,
    pub date_text: String,
    pub url: String,
    pub html_key: String,
    pub text_key: String,
    pub images_key: String,
    pub images: Vec<String>,
    pub updated_at: i64,
}

impl ArticleMetadataRecord {
    /// A record for the given article, stamped `updated_at`.
    pub fn new(
        parser_name: &str,
        title: &str,
        category: &str,
        date_text: &str,
        url: &str,
        html_key: String,
        text_key: String,
        images_key: String,
        images: Vec<String>,
        updated_at: i64,
    ) -> (r: Self)
        ensures
            r.id@ == sha256_hex(encode_utf8(id_text(parser_name@, title@, category@, date_text@))),
            r.parser@ == parser_name@,
            r.title@ == title@,
            r.category@ == category@,
            r.date_text@ == date_text@,
            r.url@ == url@,
            r.html_key == html_key,
            r.text_key == text_key,
            r.images_key == images_key,
            r.images == images,
            r.updated_at == updated_at,
    {
        let id = generate_id(parser_name, title, category, date_text);
        ArticleMetadataRecord {
            id,
            parser: String::from_str(parser_name),
            title: String::from_str(title),
            category: String::from_str(category),
            date_text: String::from_str(date_text),
            url: String::from_str(url),
            html_key,
            text_key,
            images_key,
            images,
            updated_at,
        }
    }

    /// A record for a listing entry found by the parser `parser_name`.
    pub fn from_listing(
        parser_name: &str,
        listing: &ListingItem,
        html_key: String,
        text_key: String,
        images_key: String,
        images: Vec<String>,
        updated_at: i64,
    ) -> (r: Self)
        ensures
            r.id@ == sha256_hex(
                encode_utf8(id_text(parser_name@, listing.title@, listing.category@, listing.date_text@)),
            ),
            r.parser@ == parser_name@,
            r.title@ == listing.title@,
            r.category@ == listing.category@,
            r.date_text@ == listing.date_text@,
            r.url@ == listing.url@,
            r.html_key == html_key,
            r.text_key == text_key,
            r.images_key == images_key,
            r.images == images,
            r.updated_at == updated_at,
    {
        Self::new(
            parser_name,
            listing.title.as_str(),
            listing.category.as_str(),
            listing.date_text.as_str(),
            listing.url.as_str(),
            html_key,
            text_key,
            images_key,
            images,
            updated_at,
        )
    }
}

} // verus!

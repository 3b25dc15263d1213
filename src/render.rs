//! Static HTML pages: an article's detail page, the listing page and the stylesheet.

use vstd::prelude::*;
use crate::model::Article;
use crate::text::same_text;

verus! {

/// Renders articles and listings as static HTML.
#[derive(Debug)]
pub struct HtmlGenerator {
    pub site_title: String,
    pub site_description: String,
    /// The year in the copyright line of each page; empty until set.
    pub year: String,
}

pub const SITE_TITLE: &'static str = "AI & Tech Blog";
pub const SITE_DESCRIPTION: &'static str = "Latest news and insights from AI and technology";
pub const DIGITS: &'static str = "0123456789";
pub const EDIT_NOTICE: &'static str = "<div class=\"edit-notice\">\n    <strong>Note:</strong> This translation has been manually reviewed and edited for accuracy.\n</div>";
pub const NOT_PUBLISHED: &'static str = "Not published";
pub const PAGE_OPEN: &'static str = "<!DOCTYPE html>\n<html lang=\"";
pub const PAGE_DESCRIPTION: &'static str = "\">\n<head>\n    <meta charset=\"UTF-8\">\n    <meta name=\"viewport\" content=\"width=device-width, initial-scale=1.0\">\n    <meta name=\"description\" content=\"";
pub const PAGE_TITLE: &'static str = "\">\n    <title>";
pub const TITLE_SEPARATOR: &'static str = " - ";
pub const PAGE_VERSION_COMMENT: &'static str = "</title>\n    <link rel=\"stylesheet\" href=\"/static/styles.css\">\n    <!-- Version: ";
pub const PAGE_HEAD_CLOSE: &'static str = " -->\n</head>\n";
pub const SWITCHER_LINK_OPEN: &'static str = "                    <a href=\"/articles/";
pub const DASH: &'static str = "-";
pub const LINK_CLASS: &'static str = ".html\" class=\"";
pub const ATTRIBUTE_CLOSE: &'static str = "\">";
pub const LINK_CLOSE: &'static str = "</a>\n";
pub const NAV_OPEN: &'static str = "<body>\n    <header>\n        <nav>\n            <div class=\"container\">\n                <h1><a href=\"/index-";
pub const NAV_HOME_LINK: &'static str = ".html\">";
pub const NAV_SWITCHER: &'static str = "</a></h1>\n                <div class=\"language-switcher\">\n                    <span>Language:</span>\n";
pub const NAV_CLOSE: &'static str = "                </div>\n            </div>\n        </nav>\n    </header>\n";
pub const ARTICLE_OPEN: &'static str = "    <main class=\"container\">\n        <article>\n            <header class=\"article-header\">\n                <h1>";
pub const ARTICLE_DATE: &'static str = "</h1>\n                <div class=\"article-meta\">\n                    <time datetime=\"";
pub const ARTICLE_SOURCE: &'static str = "</time>\n                    <span class=\"source\">Source: ";
pub const ARTICLE_READING_TIME: &'static str = "</span>\n                    <span class=\"reading-time\">";
pub const ARTICLE_CONTENT: &'static str = "</span>\n                </div>\n            </header>\n            <div class=\"article-content\">\n";
pub const ARTICLE_FOOTER: &'static str = "\n            </div>\n            <footer class=\"article-footer\">\n                <p><a href=\"";
pub const ARTICLE_ORIGINAL_LINK: &'static str = "\" target=\"_blank\" rel=\"noopener\">Read original article →</a></p>\n";
pub const ARTICLE_CLOSE: &'static str = "\n            </footer>\n        </article>\n";
pub const TRACKING_SCRIPT: &'static str = "        <script>\n            fetch('/api/analytics/track', {\n                method: 'POST',\n                headers: { 'Content-Type': 'application/json' },\n                body: JSON.stringify({ article_id: '";
pub const TRACKING_LANGUAGE: &'static str = "', language: '";
pub const SITE_FOOTER: &'static str = "', timestamp: new Date().toISOString() })\n            }).catch(err => console.log('Analytics tracking failed:', err));\n        </script>\n    </main>\n    <footer class=\"site-footer\">\n        <div class=\"container\">\n            <p>&copy; ";
pub const SITE_FOOTER_VERSION: &'static str = ". All rights reserved.</p>\n            <p class=\"version-info\">Version: ";
pub const SITE_FOOTER_PUBLISHED: &'static str = " | Published: ";
pub const PAGE_CLOSE: &'static str = "</p>\n        </div>\n    </footer>\n</body>\n</html>";

pub const STYLESHEET: &'static str = r#"/* Reset and base styles */
* {
    margin: 0;
    padding: 0;
    box-sizing: border-box;
}

body {
    font-family: -apple-system, BlinkMacSystemFont, 'Segoe UI', Roboto, Oxygen, Ubuntu, Cantarell, sans-serif;
    line-height: 1.6;
    color: #333;
    background-color: #f5f5f5;
}

.container {
    max-width: 1200px;
    margin: 0 auto;
    padding: 0 20px;
}

/* Header */
header {
    background-color: #fff;
    box-shadow: 0 2px 4px rgba(0,0,0,0.1);
    padding: 1rem 0;
}

header h1 {
    font-size: 1.8rem;
    margin-bottom: 0.5rem;
}

header h1 a {
    color: #2563eb;
    text-decoration: none;
}

header nav ul {
    list-style: none;
    display: flex;
    gap: 2rem;
}

header nav a {
    color: #666;
    text-decoration: none;
}

header nav a:hover {
    color: #2563eb;
}

/* Main content */
main {
    padding: 2rem 0;
}

/* Article page */
article {
    background-color: #fff;
    padding: 2rem;
    border-radius: 8px;
    box-shadow: 0 2px 4px rgba(0,0,0,0.1);
}

.article-header h1 {
    font-size: 2.5rem;
    margin-bottom: 1rem;
    color: #1a1a1a;
}

.article-meta {
    color: #666;
    font-size: 0.9rem;
    margin-bottom: 2rem;
    display: flex;
    gap: 1rem;
}

.article-footer {
    margin-top: 2rem;
    padding-top: 2rem;
    border-top: 1px solid #e5e5e5;
}

.edit-notice {
    background-color: #fef3c7;
    border-left: 4px solid #f59e0b;
    padding: 1rem;
    margin-top: 1rem;
}

/* Listing page */
.articles-grid {
    display: grid;
    grid-template-columns: repeat(auto-fill, minmax(350px, 1fr));
    gap: 2rem;
}

.article-card {
    background-color: #fff;
    padding: 1.5rem;
    border-radius: 8px;
    box-shadow: 0 2px 4px rgba(0,0,0,0.1);
    transition: transform 0.2s;
}

.article-card:hover {
    transform: translateY(-4px);
    box-shadow: 0 4px 8px rgba(0,0,0,0.15);
}

.article-card h2 {
    font-size: 1.5rem;
    margin-bottom: 0.5rem;
}

.article-card h2 a {
    color: #1a1a1a;
    text-decoration: none;
}

.article-card h2 a:hover {
    color: #2563eb;
}

.excerpt {
    color: #666;
    margin: 1rem 0;
}

.read-more {
    color: #2563eb;
    text-decoration: none;
    font-weight: 500;
}

/* Footer */
.site-footer {
    background-color: #1a1a1a;
    color: #fff;
    padding: 2rem 0;
    margin-top: 4rem;
    text-align: center;
}

/* Responsive */
@media (max-width: 768px) {
    .articles-grid {
        grid-template-columns: 1fr;
    }
    
    .article-header h1 {
        font-size: 2rem;
    }
}"#;

/// What chrono's `%B %d, %Y` makes of an RFC 3339 date, or nothing where the
/// text is not one.
pub uninterp spec fn long_date_text(s: Seq<char>) -> Option<Seq<char>>;

/// What chrono's `%Y-%m-%d %H:%M UTC` makes of an instant given in seconds since
/// the Unix epoch, or nothing where chrono has no date-time for it.
pub uninterp spec fn utc_minute_text(secs: i64) -> Option<Seq<char>>;

/// Relies on `chrono::DateTime::parse_from_rfc3339` and `format("%B %d, %Y")`:
/// the result depends on the text alone.
#[verifier::external_body]
fn long_date(s: &str) -> (r: Option<String>)
    ensures
        match r {
            Some(t) => long_date_text(s@) == Some(t@),
            None => long_date_text(s@) is None,
        },
{
    match chrono::DateTime::parse_from_rfc3339(s) {
        Ok(d) => Some(d.format("%B %d, %Y").to_string()),
        Err(_) => None,
    }
}

/// Relies on `chrono::DateTime::from_timestamp` and `format("%Y-%m-%d %H:%M UTC")`:
/// the result depends on the number alone.
#[verifier::external_body]
fn utc_minute(secs: i64) -> (r: Option<String>)
    ensures
        match r {
            Some(t) => utc_minute_text(secs) == Some(t@),
            None => utc_minute_text(secs) is None,
        },
{
    match chrono::DateTime::from_timestamp(secs, 0) {
        Some(d) => Some(d.format("%Y-%m-%d %H:%M UTC").to_string()),
        None => None,
    }
}

/// `c` as it stands in HTML text or in an attribute value.
pub open spec fn escape_char(c: char) -> Seq<char> {
    if c == '&' {
        "&amp;"@
    } else if c == '<' {
        "&lt;"@
    } else if c == '>' {
        "&gt;"@
    } else if c == '"' {
        "&quot;"@
    } else if c == '\'' {
        "&#39;"@
    } else {
        seq![c]
    }
}

/// `s` with each character escaped.
pub open spec fn escaped(s: Seq<char>) -> Seq<char>
    decreases s.len(),
{
    if s.len() == 0 {
        Seq::empty()
    } else {
        escape_char(s[0]) + escaped(s.drop_first())
    }
}

/// The inside of the paragraphs of `s`: blank lines (`\n\n`) end a paragraph,
/// and the text is escaped.
pub open spec fn paragraph_text(s: Seq<char>) -> Seq<char>
    decreases s.len(),
{
    if s.len() == 0 {
        Seq::empty()
    } else if s.len() >= 2 && s[0] == '\n' && s[1] == '\n' {
        "</p>\n<p>"@ + paragraph_text(s.subrange(2, s.len() as int))
    } else {
        escape_char(s[0]) + paragraph_text(s.drop_first())
    }
}

/// Text as HTML paragraphs, one per block between blank lines.
pub open spec fn formatted(s: Seq<char>) -> Seq<char> {
    "<p>"@ + paragraph_text(s) + "</p>"@
}

/// At most `max` characters of `s`, with `...` where some were cut.
pub open spec fn excerpt(s: Seq<char>, max: nat) -> Seq<char> {
    if s.len() > max {
        s.subrange(0, max as int) + "..."@
    } else {
        s
    }
}

/// The first `n` characters of `s`, or all of them where it has fewer.
pub open spec fn first_chars(s: Seq<char>, n: nat) -> Seq<char> {
    if s.len() > n {
        s.subrange(0, n as int)
    } else {
        s
    }
}

/// The decimal digits of `n`.
pub open spec fn decimal(n: nat) -> Seq<char>
    decreases n,
{
    if n < 10 {
        seq![DIGITS@[n as int]]
    } else {
        decimal(n / 10) + seq![DIGITS@[(n % 10) as int]]
    }
}

/// The title and body that a page in `lang` shows: the translation where there is one.
pub open spec fn localized(a: Article, lang: Seq<char>) -> (Seq<char>, Seq<char>) {
    match a.translations {
        Some(t) => if lang == "es"@ {
            (t.es.title@, t.es.content@)
        } else if lang == "uk"@ {
            (t.uk.title@, t.uk.content@)
        } else {
            (a.title@, a.content.text@)
        },
        None => (a.title@, a.content.text@),
    }
}

/// The notice shown on a translation that a person edited; empty elsewhere.
pub open spec fn edit_notice(a: Article, lang: Seq<char>) -> Seq<char> {
    let edited = match a.translations {
        Some(t) => if lang == "es"@ {
            t.es.edited
        } else if lang == "uk"@ {
            t.uk.edited
        } else {
            false
        },
        None => false,
    };
    if edited {
        EDIT_NOTICE@
    } else {
        Seq::empty()
    }
}

/// How a date-time shows on a page: its long form, or the text as it is.
pub open spec fn shown_date(s: Seq<char>) -> Seq<char> {
    match long_date_text(s) {
        Some(t) => t,
        None => s,
    }
}

/// How a publication instant shows on a page.
pub open spec fn shown_instant(t: Option<i64>) -> Seq<char> {
    match t {
        Some(secs) => match utc_minute_text(secs) {
            Some(x) => x,
            None => NOT_PUBLISHED@,
        },
        None => NOT_PUBLISHED@,
    }
}

/// `active` on the switcher link of the page's own language.
pub open spec fn active_class(lang: Seq<char>, code: Seq<char>) -> Seq<char> {
    if lang == code {
        "active"@
    } else {
        Seq::empty()
    }
}

pub open spec fn article_head(g: HtmlGenerator, lang: Seq<char>, title: Seq<char>, version: u32) -> Seq<char> {
    PAGE_OPEN@ + lang
        + PAGE_DESCRIPTION@
        + escaped(first_chars(title, 160)) + PAGE_TITLE@ + title + TITLE_SEPARATOR@ + g.site_title@
        + PAGE_VERSION_COMMENT@
        + decimal(version as nat) + PAGE_HEAD_CLOSE@
}

pub open spec fn switcher_link(id: Seq<char>, lang: Seq<char>, code: Seq<char>, label: Seq<char>) -> Seq<char> {
    SWITCHER_LINK_OPEN@ + id + DASH@ + code + LINK_CLASS@
        + active_class(lang, code) + ATTRIBUTE_CLOSE@ + label + LINK_CLOSE@
}

pub open spec fn article_nav(g: HtmlGenerator, id: Seq<char>, lang: Seq<char>) -> Seq<char> {
    NAV_OPEN@
        + lang + NAV_HOME_LINK@ + g.site_title@
        + NAV_SWITCHER@
        + switcher_link(id, lang, "en"@, "EN"@) + switcher_link(id, lang, "es"@, "ES"@)
        + switcher_link(id, lang, "uk"@, "UK"@)
        + NAV_CLOSE@
}

pub open spec fn article_main(a: Article, lang: Seq<char>, title: Seq<char>, content: Seq<char>) -> Seq<char> {
    ARTICLE_OPEN@
        + title + ARTICLE_DATE@
        + a.published_date@ + ATTRIBUTE_CLOSE@ + shown_date(a.published_date@)
        + ARTICLE_SOURCE@ + a.source@
        + ARTICLE_READING_TIME@ + a.metadata.reading_time@
        + ARTICLE_CONTENT@
        + formatted(content)
        + ARTICLE_FOOTER@
        + a.source_url@ + ARTICLE_ORIGINAL_LINK@
        + edit_notice(a, lang) + ARTICLE_CLOSE@
}

pub open spec fn article_tail(g: HtmlGenerator, a: Article, lang: Seq<char>) -> Seq<char> {
    TRACKING_SCRIPT@
        + a.id@ + TRACKING_LANGUAGE@ + lang
        + SITE_FOOTER@
        + g.year@ + " "@ + g.site_title@ + SITE_FOOTER_VERSION@
        + decimal(a.publishing.version as nat) + SITE_FOOTER_PUBLISHED@
        + shown_instant(a.publishing.published_at)
        + PAGE_CLOSE@
}

/// The detail page of article `a` in `lang`.
#[verifier::opaque]
pub open spec fn article_page(g: HtmlGenerator, a: Article, lang: Seq<char>) -> Seq<char> {
    let (title, content) = localized(a, lang);
    article_head(g, lang, title, a.publishing.version) + article_nav(g, a.id@, lang)
        + article_main(a, lang, title, content) + article_tail(g, a, lang)
}

/// The detail page shows the article's content, its version and its publication
/// instant, and nothing else of its status or publishing record.
pub proof fn lemma_page_reads(g: HtmlGenerator, a: Article, b: Article, lang: Seq<char>)
    requires
        a.id == b.id,
        a.source == b.source,
        a.source_url == b.source_url,
        a.title == b.title,
        a.published_date == b.published_date,
        a.content == b.content,
        a.translations == b.translations,
        a.metadata == b.metadata,
        a.publishing.version == b.publishing.version,
        a.publishing.published_at == b.publishing.published_at,
    ensures
        article_page(g, a, lang) == article_page(g, b, lang),
{
    reveal(article_page);
    assert(localized(a, lang) == localized(b, lang));
    assert(edit_notice(a, lang) == edit_notice(b, lang));
    assert(article_tail(g, a, lang) == article_tail(g, b, lang));
    assert(article_main(a, lang, localized(a, lang).0, localized(a, lang).1)
        == article_main(b, lang, localized(b, lang).0, localized(b, lang).1));
}

/// Appends `escaped(s)` to `out`.
fn push_escaped(out: &mut String, s: &str)
    ensures
        final(out)@ == old(out)@ + escaped(s@),
{
    let n = s.unicode_len();
    let mut i: usize = 0;
    assert(s@.subrange(0, n as int) =~= s@);
    while i < n
        invariant
            n == s@.len(),
            i <= n,
            old(out)@ + escaped(s@) == out@ + escaped(s@.subrange(i as int, n as int)),
        decreases n - i,
    {
        let c = s.get_char(i);
        let ghost rest = s@.subrange(i as int, n as int);
        let ghost pre = out@;
        if c == '&' {
            out.append("&amp;");
        } else if c == '<' {
            out.append("&lt;");
        } else if c == '>' {
            out.append("&gt;");
        } else if c == '"' {
            out.append("&quot;");
        } else if c == '\'' {
            out.append("&#39;");
        } else {
            out.append(s.substring_char(i, i + 1));
            assert(s@.subrange(i as int, i + 1) =~= seq![c]);
        }
        proof {
            assert(rest.drop_first() =~= s@.subrange(i + 1, n as int));
            assert(out@ == pre + escape_char(c));
            assert(pre + escaped(rest) == pre + escape_char(c) + escaped(rest.drop_first())) by {
                assert(escaped(rest) == escape_char(rest[0]) + escaped(rest.drop_first()));
                vstd::seq_lib::lemma_concat_associative(pre, escape_char(c), escaped(rest.drop_first()));
            }
        }
        i = i + 1;
    }
    assert(s@.subrange(n as int, n as int) =~= Seq::<char>::empty());
    assert(out@ + Seq::<char>::empty() =~= out@);
}

/// Appends `paragraph_text(s)` to `out`.
fn push_paragraphs(out: &mut String, s: &str)
    ensures
        final(out)@ == old(out)@ + paragraph_text(s@),
{
    let n = s.unicode_len();
    let mut i: usize = 0;
    assert(s@.subrange(0, n as int) =~= s@);
    while i < n
        invariant
            n == s@.len(),
            i <= n,
            old(out)@ + paragraph_text(s@) == out@ + paragraph_text(s@.subrange(i as int, n as int)),
        decreases n - i,
    {
        let c = s.get_char(i);
        let ghost rest = s@.subrange(i as int, n as int);
        let ghost pre = out@;
        if c == '\n' && i + 1 < n && s.get_char(i + 1) == '\n' {
            out.append("</p>\n<p>");
            proof {
                assert(rest.subrange(2, rest.len() as int) =~= s@.subrange(i + 2, n as int));
                assert(paragraph_text(rest) == "</p>\n<p>"@ + paragraph_text(rest.subrange(2, rest.len() as int)));
                vstd::seq_lib::lemma_concat_associative(pre, "</p>\n<p>"@, paragraph_text(rest.subrange(2, rest.len() as int)));
            }
            i = i + 2;
        } else {
            let piece = String::from_str(s.substring_char(i, i + 1));
            assert(piece@ =~= seq![c]);
            let ghost mid = out@;
            push_escaped(out, piece.as_str());
            proof {
                assert(piece@.drop_first() =~= Seq::<char>::empty());
                assert(escaped(piece@) == escape_char(c) + escaped(piece@.drop_first()));
                assert(escaped(Seq::<char>::empty()) == Seq::<char>::empty());
                assert(escaped(piece@) =~= escape_char(c));
                assert(rest.drop_first() =~= s@.subrange(i + 1, n as int));
                assert(!(rest.len() >= 2 && rest[0] == '\n' && rest[1] == '\n'));
                assert(paragraph_text(rest) == escape_char(c) + paragraph_text(rest.drop_first()));
                vstd::seq_lib::lemma_concat_associative(pre, escape_char(c), paragraph_text(rest.drop_first()));
            }
            i = i + 1;
        }
    }
    assert(s@.subrange(n as int, n as int) =~= Seq::<char>::empty());
    assert(out@ + Seq::<char>::empty() =~= out@);
}

/// Appends the decimal digits of `n` to `out`.
pub(crate) fn push_decimal(out: &mut String, n: u64)
    ensures
        final(out)@ == old(out)@ + decimal(n as nat),
    decreases n,
{
    proof {
        reveal_strlit("0123456789");
    }
    if n < 10 {
        out.append(DIGITS.substring_char(n as usize, n as usize + 1));
        assert(DIGITS@.subrange(n as int, n + 1) =~= seq![DIGITS@[n as int]]);
    } else {
        push_decimal(out, n / 10);
        let d = (n % 10) as usize;
        out.append(DIGITS.substring_char(d, d + 1));
        assert(DIGITS@.subrange(d as int, d + 1) =~= seq![DIGITS@[(n % 10) as int]]);
    }
}

/// The title and body of `article` for `lang`.
fn localized_text<'a>(article: &'a Article, lang: &str) -> (r: (&'a str, &'a str))
    ensures
        (r.0@, r.1@) == localized(*article, lang@),
{
    match &article.translations {
        Some(t) => {
            if same_text(lang, "es") {
                (t.es.title.as_str(), t.es.content.as_str())
            } else if same_text(lang, "uk") {
                (t.uk.title.as_str(), t.uk.content.as_str())
            } else {
                (article.title.as_str(), article.content.text.as_str())
            }
        },
        None => (article.title.as_str(), article.content.text.as_str()),
    }
}

/// The first `n` characters of `s`.
fn first_chars_of(s: &str, n: usize) -> (r: &str)
    ensures
        r@ == first_chars(s@, n as nat),
{
    let len = s.unicode_len();
    if len > n {
        s.substring_char(0, n)
    } else {
        s
    }
}

fn push_active(out: &mut String, lang: &str, code: &str)
    ensures
        final(out)@ == old(out)@ + active_class(lang@, code@),
{
    if same_text(lang, code) {
        out.append("active");
    } else {
        assert(out@ + Seq::<char>::empty() =~= out@);
    }
}

fn push_switcher_link(out: &mut String, id: &str, lang: &str, code: &str, label: &str)
    ensures
        final(out)@ == old(out)@ + switcher_link(id@, lang@, code@, label@),
{
    let ghost o = out@;
    out.append(SWITCHER_LINK_OPEN);
    out.append(id);
    out.append(DASH);
    out.append(code);
    out.append(LINK_CLASS);
    push_active(out, lang, code);
    out.append(ATTRIBUTE_CLOSE);
    out.append(label);
    out.append(LINK_CLOSE);
    assert(out@ =~= o + switcher_link(id@, lang@, code@, label@));
}

impl HtmlGenerator {
    pub fn new() -> (r: Self)
        ensures
            r.site_title@ == SITE_TITLE@,
            r.site_description@ == SITE_DESCRIPTION@,
            r.year@.len() == 0,
    {
        HtmlGenerator {
            site_title: String::from_str(SITE_TITLE),
            site_description: String::from_str(SITE_DESCRIPTION),
            year: String::new(),
        }
    }

    /// The same generator, with `year` in the copyright line of each page.
    pub fn with_year(self, year: String) -> (r: Self)
        ensures
            r.site_title == self.site_title,
            r.site_description == self.site_description,
            r.year == year,
    {
        HtmlGenerator { year, ..self }
    }

    /// The stylesheet that every page links to.
    pub fn generate_stylesheet(&self) -> (r: String)
        ensures
            r@ == STYLESHEET@,
    {
        String::from_str(STYLESHEET)
    }

    /// `text` with `&`, `<`, `>`, `"` and `'` written as HTML entities.
    pub fn escape_html(&self, text: &str) -> (r: String)
        ensures
            r@ == escaped(text@),
    {
        let mut out = String::new();
        push_escaped(&mut out, text);
        out
    }

    /// `content` as escaped HTML paragraphs, one per block between blank lines.
    pub fn format_content(&self, content: &str) -> (r: String)
        ensures
            r@ == formatted(content@),
    {
        let mut out = String::from_str("<p>");
        push_paragraphs(&mut out, content);
        out.append("</p>");
        out
    }

    /// At most `max_length` characters of `content`, followed by `...` where it was cut.
    pub fn generate_excerpt(&self, content: &str, max_length: usize) -> (r: String)
        ensures
            r@ == excerpt(content@, max_length as nat),
    {
        let len = content.unicode_len();
        if len > max_length {
            let mut out = String::from_str(content.substring_char(0, max_length));
            out.append("...");
            out
        } else {
            String::from_str(content)
        }
    }

    /// A date-time in its long form (`January 01, 2024`), or as it is where it does not parse.
    pub fn format_date(&self, date_str: &str) -> (r: String)
        ensures
            r@ == shown_date(date_str@),
    {
        match long_date(date_str) {
            Some(t) => t,
            None => String::from_str(date_str),
        }
    }

    /// A publication instant as `YYYY-MM-DD HH:MM UTC`, or `Not published`.
    pub fn format_timestamp(&self, timestamp: Option<i64>) -> (r: String)
        ensures
            r@ == shown_instant(timestamp),
    {
        match timestamp {
            Some(secs) => match utc_minute(secs) {
                Some(t) => t,
                None => String::from_str(NOT_PUBLISHED),
            },
            None => String::from_str(NOT_PUBLISHED),
        }
    }

    /// The notice that a translation was edited by hand, where it was; else empty.
    pub fn generate_edit_notice(&self, article: &Article, lang: &str) -> (r: String)
        ensures
            r@ == edit_notice(*article, lang@),
    {
        let edited = match &article.translations {
            Some(t) => {
                if same_text(lang, "es") {
                    t.es.edited
                } else if same_text(lang, "uk") {
                    t.uk.edited
                } else {
                    false
                }
            },
            None => false,
        };
        if edited {
            String::from_str(EDIT_NOTICE)
        } else {
            String::new()
        }
    }

    fn push_head(&self, out: &mut String, lang: &str, title: &str, version: u32)
        ensures
            final(out)@ == old(out)@ + article_head(*self, lang@, title@, version),
    {
        let ghost o = out@;
        out.append(PAGE_OPEN);
        out.append(lang);
        out.append(PAGE_DESCRIPTION);
        push_escaped(out, first_chars_of(title, 160));
        out.append(PAGE_TITLE);
        out.append(title);
        out.append(TITLE_SEPARATOR);
        out.append(self.site_title.as_str());
        out.append(PAGE_VERSION_COMMENT);
        push_decimal(out, version as u64);
        out.append(PAGE_HEAD_CLOSE);
        assert(out@ =~= o + article_head(*self, lang@, title@, version));
    }

    fn push_nav(&self, out: &mut String, id: &str, lang: &str)
        ensures
            final(out)@ == old(out)@ + article_nav(*self, id@, lang@),
    {
        let ghost o = out@;
        out.append(NAV_OPEN);
        out.append(lang);
        out.append(NAV_HOME_LINK);
        out.append(self.site_title.as_str());
        out.append(NAV_SWITCHER);
        push_switcher_link(out, id, lang, "en", "EN");
        push_switcher_link(out, id, lang, "es", "ES");
        push_switcher_link(out, id, lang, "uk", "UK");
        out.append(NAV_CLOSE);
        assert(out@ =~= o + article_nav(*self, id@, lang@));
    }

    fn push_main(&self, out: &mut String, article: &Article, lang: &str, title: &str, content: &str)
        ensures
            final(out)@ == old(out)@ + article_main(*article, lang@, title@, content@),
    {
        let ghost o = out@;
        out.append(ARTICLE_OPEN);
        out.append(title);
        out.append(ARTICLE_DATE);
        out.append(article.published_date.as_str());
        out.append(ATTRIBUTE_CLOSE);
        let date = self.format_date(article.published_date.as_str());
        out.append(date.as_str());
        out.append(ARTICLE_SOURCE);
        out.append(article.source.as_str());
        out.append(ARTICLE_READING_TIME);
        out.append(article.metadata.reading_time.as_str());
        out.append(ARTICLE_CONTENT);
        let body = self.format_content(content);
        out.append(body.as_str());
        out.append(ARTICLE_FOOTER);
        out.append(article.source_url.as_str());
        out.append(ARTICLE_ORIGINAL_LINK);
        let notice = self.generate_edit_notice(article, lang);
        out.append(notice.as_str());
        out.append(ARTICLE_CLOSE);
        assert(out@ =~= o + article_main(*article, lang@, title@, content@));
    }

    fn push_tail(&self, out: &mut String, article: &Article, lang: &str)
        ensures
            final(out)@ == old(out)@ + article_tail(*self, *article, lang@),
    {
        let ghost o = out@;
        out.append(TRACKING_SCRIPT);
        out.append(article.id.as_str());
        out.append(TRACKING_LANGUAGE);
        out.append(lang);
        out.append(SITE_FOOTER);
        out.append(self.year.as_str());
        out.append(" ");
        out.append(self.site_title.as_str());
        out.append(SITE_FOOTER_VERSION);
        push_decimal(out, article.publishing.version as u64);
        out.append(SITE_FOOTER_PUBLISHED);
        let shown = self.format_timestamp(article.publishing.published_at);
        out.append(shown.as_str());
        out.append(PAGE_CLOSE);
        assert(out@ =~= o + article_tail(*self, *article, lang@));
    }

    /// The detail page of `article` in `lang`, using its translation where it has one.
    pub fn generate_article_html(&self, article: &Article, lang: &str) -> (r: String)
        ensures
            r@ == article_page(*self, *article, lang@),
    {
        let (title, content) = localized_text(article, lang);
        let mut out = String::new();
        self.push_head(&mut out, lang, title, article.publishing.version);
        self.push_nav(&mut out, article.id.as_str(), lang);
        self.push_main(&mut out, article, lang, title, content);
        self.push_tail(&mut out, article, lang);
        proof {
            reveal(article_page);
        }
        assert(out@ =~= article_page(*self, *article, lang@));
        out
    }
}

pub const LISTING_HEAD_OPEN: &'static str = "<!DOCTYPE html>\n<html lang=\"";
pub const LISTING_HEAD_DESCRIPTION: &'static str = "\">\n<head>\n    <meta charset=\"UTF-8\">\n    <meta name=\"viewport\" content=\"width=device-width, initial-scale=1.0\">\n    <meta name=\"description\" content=\"";
pub const LISTING_HEAD_TITLE: &'static str = "\">\n    <title>";
pub const LISTING_HEADER_OPEN: &'static str = "</title>\n    <link rel=\"stylesheet\" href=\"/static/styles.css\">\n</head>\n<body>\n    <header>\n        <nav>\n            <div class=\"container\">\n                <h1>";
pub const LISTING_TAGLINE: &'static str = "</h1>\n                <p class=\"tagline\">";
pub const LISTING_SWITCHER: &'static str = "</p>\n                <div class=\"language-switcher\">\n";
pub const LISTING_LINK_OPEN: &'static str = "                    <a href=\"/index-";
pub const LISTING_SEARCH: &'static str = "                </div>\n            </div>\n        </nav>\n    </header>\n\n    <main class=\"container\">\n        <div class=\"search-filter-bar\">\n            <input type=\"search\" id=\"search-input\" placeholder=\"";
pub const LISTING_FILTER: &'static str = "\" class=\"search-input\"/>\n            <select id=\"category-filter\" class=\"category-filter\">\n                <option value=\"\">";
pub const LISTING_GRID: &'static str = "</option>\n                <option value=\"testai\">testai</option>\n                <option value=\"huggingface\">HuggingFace</option>\n                <option value=\"techcrunch\">TechCrunch</option>\n            </select>\n        </div>\n\n        <div class=\"articles-grid\" id=\"articles-grid\">\n";
pub const LISTING_FOOTER: &'static str = "\n        </div>\n\n        <div id=\"loading\" class=\"loading\" style=\"display:none;\">Loading...</div>\n    </main>\n\n    <footer class=\"site-footer\">\n        <div class=\"container\">\n            <p>&copy; ";
pub const LISTING_END: &'static str = ". All rights reserved.</p>\n        </div>\n    </footer>\n\n";
pub const LISTING_SCRIPT: &'static str = "    <!-- Client-side JavaScript for search/filter -->\n    <script>\n        const searchInput = document.getElementById('search-input');\n        const categoryFilter = document.getElementById('category-filter');\n        const articlesGrid = document.getElementById('articles-grid');\n        const loading = document.getElementById('loading');\n        \n        let searchTimeout;\n        \n        // Search functionality (calls API)\n        searchInput.addEventListener('input', (e) => {\n            clearTimeout(searchTimeout);\n            const query = e.target.value.trim();\n            \n            if (query.length < 3) {\n                // Show static content if search is cleared\n                location.reload();\n                return;\n            }\n            \n            searchTimeout = setTimeout(() => {\n                performSearch(query);\n            }, 500);\n        });\n        \n        // Filter functionality (calls API)\n        categoryFilter.addEventListener('change', (e) => {\n            const category = e.target.value;\n            if (category) {\n                performFilter(category);\n            } else {\n                location.reload();\n            }\n        });\n        \n        async function performSearch(query) {\n            loading.style.display = 'block';\n            try {\n                const response = await fetch(`/api/search?q=${encodeURIComponent(query)}&lang=";
pub const LISTING_SCRIPT_FILTER: &'static str = "`);\n                const data = await response.json();\n                displayResults(data.articles || []);\n            } catch (err) {\n                console.error('Search failed:', err);\n            } finally {\n                loading.style.display = 'none';\n            }\n        }\n        \n        async function performFilter(category) {\n            loading.style.display = 'block';\n            try {\n                const response = await fetch(`/api/articles?category=${category}&lang=";
pub const LISTING_SCRIPT_RESULTS: &'static str = "`);\n                const data = await response.json();\n                displayResults(data.articles || []);\n            } catch (err) {\n                console.error('Filter failed:', err);\n            } finally {\n                loading.style.display = 'none';\n            }\n        }\n        \n        function displayResults(articles) {\n            if (articles.length === 0) {\n                articlesGrid.innerHTML = '<p class=\"no-results\">No articles found.</p>';\n                return;\n            }\n            \n            articlesGrid.innerHTML = articles.map(article => `\n                <article class=\"article-card\">\n                    <h2><a href=\"/articles/${article.id}-";
pub const LISTING_SCRIPT_READ_MORE: &'static str = ".html\">${article.title}</a></h2>\n                    <div class=\"article-meta\">\n                        <time>${new Date(article.published_date).toLocaleDateString()}</time>\n                        <span class=\"source\">${article.source}</span>\n                    </div>\n                    <p class=\"excerpt\">${article.excerpt || ''}</p>\n                    <a href=\"/articles/${article.id}-";
pub const LISTING_SCRIPT_END: &'static str = ".html\" class=\"read-more\">Read more →</a>\n                </article>\n            `).join('');\n        }\n    </script>\n</body>\n</html>";
pub const CARD_OPEN: &'static str = "<article class=\"article-card\">\n    <h2><a href=\"/articles/";
pub const CARD_TITLE: &'static str = ".html\">";
pub const CARD_META: &'static str = "</a></h2>\n    <div class=\"article-meta\">\n        <time datetime=\"";
pub const CARD_SOURCE: &'static str = "</time>\n        <span class=\"source\">";
pub const CARD_READING_TIME: &'static str = "</span>\n        <span class=\"reading-time\">";
pub const CARD_EXCERPT: &'static str = "</span>\n    </div>\n    <p class=\"excerpt\">";
pub const CARD_READ_MORE: &'static str = "</p>\n    <a href=\"/articles/";
pub const CARD_READ_MORE_CLASS: &'static str = ".html\" class=\"read-more\">";
pub const CARD_CLOSE: &'static str = "</a>\n</article>";

/// The words of the listing page in `lang`: its title, tagline, search
/// placeholder, filter label and read-more link.
pub open spec fn listing_words(lang: Seq<char>) -> (Seq<char>, Seq<char>, Seq<char>, Seq<char>, Seq<char>) {
    if lang == "es"@ {
        ("Blog de IA y Tecnología"@, "Últimas noticias e información de IA y tecnología"@,
            "Buscar artículos..."@, "Filtrar por:"@, "Leer más →"@)
    } else if lang == "uk"@ {
        ("Блог про ШІ та Технології"@, "Останні новини та інформація про ШІ та технології"@,
            "Шукати статті..."@, "Фільтрувати за:"@, "Читати далі →"@)
    } else {
        ("AI & Tech Blog"@, "Latest news and insights from AI and technology"@,
            "Search articles..."@, "Filter by:"@, "Read more →"@)
    }
}

/// The card of article `a` on the listing page in `lang`.
pub open spec fn article_card(a: Article, lang: Seq<char>) -> Seq<char> {
    let (title, content) = localized(a, lang);
    CARD_OPEN@ + a.id@ + "-"@ + lang + CARD_TITLE@ + escaped(title) + CARD_META@
        + a.published_date@ + "\">"@ + shown_date(a.published_date@) + CARD_SOURCE@
        + a.source@ + CARD_READING_TIME@ + a.metadata.reading_time@ + CARD_EXCERPT@
        + excerpt(content, 200) + CARD_READ_MORE@ + a.id@ + "-"@ + lang
        + CARD_READ_MORE_CLASS@ + listing_words(lang).4 + CARD_CLOSE@
}

/// The cards of `s` in order, one per line.
pub open spec fn article_cards(s: Seq<Article>, lang: Seq<char>) -> Seq<char>
    decreases s.len(),
{
    if s.len() == 0 {
        Seq::empty()
    } else if s.len() == 1 {
        article_card(s[0], lang)
    } else {
        article_cards(s.drop_last(), lang) + "\n"@ + article_card(s.last(), lang)
    }
}

pub open spec fn listing_link(lang: Seq<char>, code: Seq<char>, label: Seq<char>) -> Seq<char> {
    LISTING_LINK_OPEN@ + code + ".html\" class=\""@ + active_class(lang, code) + "\">"@ + label + "</a>\n"@
}

/// The listing page in `lang` of the articles `s`.
#[verifier::opaque]
pub open spec fn listing_page(g: HtmlGenerator, s: Seq<Article>, lang: Seq<char>) -> Seq<char> {
    let (title, tagline, search, filter, _more) = listing_words(lang);
    LISTING_HEAD_OPEN@ + lang + LISTING_HEAD_DESCRIPTION@ + tagline + LISTING_HEAD_TITLE@ + title
        + LISTING_HEADER_OPEN@ + title + LISTING_TAGLINE@ + tagline + LISTING_SWITCHER@
        + listing_link(lang, "en"@, "EN"@) + listing_link(lang, "es"@, "ES"@) + listing_link(lang, "uk"@, "UK"@)
        + LISTING_SEARCH@ + search + LISTING_FILTER@ + filter + LISTING_GRID@ + article_cards(s, lang)
        + LISTING_FOOTER@ + g.year@ + " "@ + g.site_title@ + LISTING_END@ + LISTING_SCRIPT@ + lang
        + LISTING_SCRIPT_FILTER@ + lang + LISTING_SCRIPT_RESULTS@ + lang + LISTING_SCRIPT_READ_MORE@ + lang
        + LISTING_SCRIPT_END@
}

fn listing_words_of(lang: &str) -> (r: (&'static str, &'static str, &'static str, &'static str, &'static str))
    ensures
        (r.0@, r.1@, r.2@, r.3@, r.4@) == listing_words(lang@),
{
    if same_text(lang, "es") {
        ("Blog de IA y Tecnología", "Últimas noticias e información de IA y tecnología",
            "Buscar artículos...", "Filtrar por:", "Leer más →")
    } else if same_text(lang, "uk") {
        ("Блог про ШІ та Технології", "Останні новини та інформація про ШІ та технології",
            "Шукати статті...", "Фільтрувати за:", "Читати далі →")
    } else {
        ("AI & Tech Blog", "Latest news and insights from AI and technology",
            "Search articles...", "Filter by:", "Read more →")
    }
}

fn push_listing_link(out: &mut String, lang: &str, code: &str, label: &str)
    ensures
        final(out)@ == old(out)@ + listing_link(lang@, code@, label@),
{
    let ghost o = out@;
    out.append(LISTING_LINK_OPEN);
    out.append(code);
    out.append(".html\" class=\"");
    push_active(out, lang, code);
    out.append("\">");
    out.append(label);
    out.append("</a>\n");
    assert(out@ =~= o + listing_link(lang@, code@, label@));
}

impl HtmlGenerator {
    fn push_card(&self, out: &mut String, article: &Article, lang: &str)
        ensures
            final(out)@ == old(out)@ + article_card(*article, lang@),
    {
        let ghost o = out@;
        let (title, content) = localized_text(article, lang);
        let words = listing_words_of(lang);
        out.append(CARD_OPEN);
        out.append(article.id.as_str());
        out.append("-");
        out.append(lang);
        out.append(CARD_TITLE);
        push_escaped(out, title);
        out.append(CARD_META);
        out.append(article.published_date.as_str());
        out.append("\">");
        let date = self.format_date(article.published_date.as_str());
        out.append(date.as_str());
        out.append(CARD_SOURCE);
        out.append(article.source.as_str());
        out.append(CARD_READING_TIME);
        out.append(article.metadata.reading_time.as_str());
        out.append(CARD_EXCERPT);
        let short = self.generate_excerpt(content, 200);
        out.append(short.as_str());
        out.append(CARD_READ_MORE);
        out.append(article.id.as_str());
        out.append("-");
        out.append(lang);
        out.append(CARD_READ_MORE_CLASS);
        out.append(words.4);
        out.append(CARD_CLOSE);
        assert(out@ =~= o + article_card(*article, lang@));
    }

    /// The card that stands for `article` on the listing page in `lang`.
    pub fn generate_article_card(&self, article: &Article, lang: &str) -> (r: String)
        ensures
            r@ == article_card(*article, lang@),
    {
        let mut out = String::new();
        self.push_card(&mut out, article, lang);
        out
    }

    /// The listing page in `lang` of `articles`, in the order given.
    pub fn generate_listing_html(&self, articles: &Vec<&Article>, lang: &str) -> (r: String)
        ensures
            r@ == listing_page(*self, articles@.map_values(|a: &Article| *a), lang@),
    {
        let ghost s = articles@.map_values(|a: &Article| *a);
        let words = listing_words_of(lang);
        let mut out = String::from_str(LISTING_HEAD_OPEN);
        out.append(lang);
        out.append(LISTING_HEAD_DESCRIPTION);
        out.append(words.1);
        out.append(LISTING_HEAD_TITLE);
        out.append(words.0);
        out.append(LISTING_HEADER_OPEN);
        out.append(words.0);
        out.append(LISTING_TAGLINE);
        out.append(words.1);
        out.append(LISTING_SWITCHER);
        push_listing_link(&mut out, lang, "en", "EN");
        push_listing_link(&mut out, lang, "es", "ES");
        push_listing_link(&mut out, lang, "uk", "UK");
        out.append(LISTING_SEARCH);
        out.append(words.2);
        out.append(LISTING_FILTER);
        out.append(words.3);
        out.append(LISTING_GRID);
        let ghost head = out@;
        let mut i: usize = 0;
        assert(s.take(0) =~= Seq::<Article>::empty());
        while i < articles.len()
            invariant
                i <= articles@.len(),
                s == articles@.map_values(|a: &Article| *a),
                out@ == head + article_cards(s.take(i as int), lang@),
            decreases articles@.len() - i,
        {
            let ghost before = out@;
            if i > 0 {
                out.append("\n");
            }
            self.push_card(&mut out, articles[i], lang);
            proof {
                let t = s.take(i + 1);
                assert(t.drop_last() =~= s.take(i as int));
                assert(t.last() == s[i as int]);
                if i == 0 {
                    assert(s.take(0) =~= Seq::<Article>::empty());
                    assert(out@ =~= head + article_cards(t, lang@));
                } else {
                    assert(out@ =~= head + article_cards(t, lang@));
                }
            }
            i = i + 1;
        }
        assert(s.take(articles@.len() as int) =~= s);
        out.append(LISTING_FOOTER);
        out.append(self.year.as_str());
        out.append(" ");
        out.append(self.site_title.as_str());
        out.append(LISTING_END);
        out.append(LISTING_SCRIPT);
        out.append(lang);
        out.append(LISTING_SCRIPT_FILTER);
        out.append(lang);
        out.append(LISTING_SCRIPT_RESULTS);
        out.append(lang);
        out.append(LISTING_SCRIPT_READ_MORE);
        out.append(lang);
        out.append(LISTING_SCRIPT_END);
        proof {
            reveal(listing_page);
        }
        assert(out@ =~= listing_page(*self, s, lang@));
        out
    }
}

} // verus!

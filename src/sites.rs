//! The sites that the scrapers know, and text helpers for scraped content.

use vstd::prelude::*;
use crate::text::{has_prefix, same_text, starts_with};

verus! {

pub const OPENAI_BASE: &'static str = "https://openai.com";
pub const OPENAI_PRODUCT_RELEASES_LISTING: &'static str = "https://openai.com/news/product-releases/?display=list";
pub const OPENAI_SECURITY_LISTING: &'static str = "https://openai.com/news/security/?display=list";
pub const OPENAI_RESEARCH_LISTING: &'static str = "https://openai.com/news/research/?display=list";
pub const OPENAI_COMPANY_ANNOUNCEMENTS_LISTING: &'static str = "https://openai.com/news/company-announcements/?display=list";
pub const OPENAI_ENGINEERING_LISTING: &'static str = "https://openai.com/news/engineering/?display=list";
pub const OPENAI_SAFETY_ALIGNMENT_LISTING: &'static str = "https://openai.com/news/safety-alignment/?display=list";

/// The news sections that the fetch-proxy crawler can scrape.
#[derive(Clone, Copy, Debug, PartialEq, Eq, Structural)]
pub enum ScrapedoParser {
    OpenAIProductReleases,
    OpenAISecurity,
    OpenAIResearch,
    OpenAICompanyAnnouncements,
    OpenAIEngineering,
    OpenAISafetyAlignment,
}

impl ScrapedoParser {
    pub open spec fn spec_name(self) -> Seq<char> {
        match self {
            ScrapedoParser::OpenAIProductReleases => "openai-product-releases"@,
            ScrapedoParser::OpenAISecurity => "openai-security"@,
            ScrapedoParser::OpenAIResearch => "openai-research"@,
            ScrapedoParser::OpenAICompanyAnnouncements => "openai-company-announcements"@,
            ScrapedoParser::OpenAIEngineering => "openai-engineering"@,
            ScrapedoParser::OpenAISafetyAlignment => "openai-safety-alignment"@,
        }
    }

    pub open spec fn spec_listing_url(self) -> Seq<char> {
        match self {
            ScrapedoParser::OpenAIProductReleases => OPENAI_PRODUCT_RELEASES_LISTING@,
            ScrapedoParser::OpenAISecurity => OPENAI_SECURITY_LISTING@,
            ScrapedoParser::OpenAIResearch => OPENAI_RESEARCH_LISTING@,
            ScrapedoParser::OpenAICompanyAnnouncements => OPENAI_COMPANY_ANNOUNCEMENTS_LISTING@,
            ScrapedoParser::OpenAIEngineering => OPENAI_ENGINEERING_LISTING@,
            ScrapedoParser::OpenAISafetyAlignment => OPENAI_SAFETY_ALIGNMENT_LISTING@,
        }
    }

    /// The section whose site name is `name`, if there is one.
    pub fn from_site_name(name: &str) -> (r: Option<Self>)
        ensures
            match r {
                Some(p) => p.spec_name() == name@,
                None => forall|p: ScrapedoParser| p.spec_name() != name@,
            },
    {
        if same_text(name, "openai-product-releases") {
            Some(ScrapedoParser::OpenAIProductReleases)
        } else if same_text(name, "openai-security") {
            Some(ScrapedoParser::OpenAISecurity)
        } else if same_text(name, "openai-research") {
            Some(ScrapedoParser::OpenAIResearch)
        } else if same_text(name, "openai-company-announcements") {
            Some(ScrapedoParser::OpenAICompanyAnnouncements)
        } else if same_text(name, "openai-engineering") {
            Some(ScrapedoParser::OpenAIEngineering)
        } else if same_text(name, "openai-safety-alignment") {
            Some(ScrapedoParser::OpenAISafetyAlignment)
        } else {
            None
        }
    }

    pub fn name(&self) -> (r: &'static str)
        ensures
            r@ == self.spec_name(),
    {
        match self {
            ScrapedoParser::OpenAIProductReleases => "openai-product-releases",
            ScrapedoParser::OpenAISecurity => "openai-security",
            ScrapedoParser::OpenAIResearch => "openai-research",
            ScrapedoParser::OpenAICompanyAnnouncements => "openai-company-announcements",
            ScrapedoParser::OpenAIEngineering => "openai-engineering",
            ScrapedoParser::OpenAISafetyAlignment => "openai-safety-alignment",
        }
    }

    /// The listing page of the section.
    pub fn listing_url(&self) -> (r: &'static str)
        ensures
            r@ == self.spec_listing_url(),
    {
        match self {
            ScrapedoParser::OpenAIProductReleases => OPENAI_PRODUCT_RELEASES_LISTING,
            ScrapedoParser::OpenAISecurity => OPENAI_SECURITY_LISTING,
            ScrapedoParser::OpenAIResearch => OPENAI_RESEARCH_LISTING,
            ScrapedoParser::OpenAICompanyAnnouncements => OPENAI_COMPANY_ANNOUNCEMENTS_LISTING,
            ScrapedoParser::OpenAIEngineering => OPENAI_ENGINEERING_LISTING,
            ScrapedoParser::OpenAISafetyAlignment => OPENAI_SAFETY_ALIGNMENT_LISTING,
        }
    }
}

/// The news sections that the browser crawler can scrape.
#[derive(Clone, Copy, Debug, PartialEq, Eq, Structural)]
pub enum PlaywrightParser {
    OpenAIProductReleases,
    OpenAISecurity,
}

impl PlaywrightParser {
    pub open spec fn spec_name(self) -> Seq<char> {
        match self {
            PlaywrightParser::OpenAIProductReleases => "openai-product-releases"@,
            PlaywrightParser::OpenAISecurity => "openai-security"@,
        }
    }

    pub open spec fn spec_listing_url(self) -> Seq<char> {
        match self {
            PlaywrightParser::OpenAIProductReleases => OPENAI_PRODUCT_RELEASES_LISTING@,
            PlaywrightParser::OpenAISecurity => OPENAI_SECURITY_LISTING@,
        }
    }

    /// The section whose site name is `name`, if there is one.
    pub fn from_site_name(name: &str) -> (r: Option<Self>)
        ensures
            match r {
                Some(p) => p.spec_name() == name@,
                None => forall|p: PlaywrightParser| p.spec_name() != name@,
            },
    {
        if same_text(name, "openai-product-releases") {
            Some(PlaywrightParser::OpenAIProductReleases)
        } else if same_text(name, "openai-security") {
            Some(PlaywrightParser::OpenAISecurity)
        } else {
            None
        }
    }

    pub fn name(&self) -> (r: &'static str)
        ensures
            r@ == self.spec_name(),
    {
        match self {
            PlaywrightParser::OpenAIProductReleases => "openai-product-releases",
            PlaywrightParser::OpenAISecurity => "openai-security",
        }
    }

    /// The listing page of the section.
    pub fn listing_url(&self) -> (r: &'static str)
        ensures
            r@ == self.spec_listing_url(),
    {
        match self {
            PlaywrightParser::OpenAIProductReleases => OPENAI_PRODUCT_RELEASES_LISTING,
            PlaywrightParser::OpenAISecurity => OPENAI_SECURITY_LISTING,
        }
    }
}

/// `s` without its trailing `/` characters.
pub open spec fn trim_end_slashes(s: Seq<char>) -> Seq<char>
    decreases s.len(),
{
    if s.len() > 0 && s.last() == '/' {
        trim_end_slashes(s.drop_last())
    } else {
        s
    }
}

/// `url` made absolute against `base`: kept where it already names a scheme,
/// given `https:` where it is protocol-relative, else joined to `base`.
pub open spec fn absolute(base: Seq<char>, url: Seq<char>) -> Seq<char> {
    if has_prefix(url, "http"@) {
        url
    } else if has_prefix(url, "//"@) {
        "https:"@ + url
    } else if has_prefix(url, "/"@) {
        trim_end_slashes(base) + url
    } else {
        trim_end_slashes(base) + "/"@ + url
    }
}

fn trim_end_slashes_of(s: &str) -> (r: &str)
    ensures
        r@ == trim_end_slashes(s@),
{
    let mut n = s.unicode_len();
    assert(s@.subrange(0, n as int) =~= s@);
    while n > 0 && s.get_char(n - 1) == '/'
        invariant
            n <= s@.len(),
            trim_end_slashes(s@.subrange(0, n as int)) == trim_end_slashes(s@),
        decreases n,
    {
        assert(s@.subrange(0, n as int).drop_last() =~= s@.subrange(0, n - 1));
        n = n - 1;
    }
    s.substring_char(0, n)
}

/// `url` made absolute against `base`.
pub fn absolute_url(base: &str, url: &str) -> (r: String)
    ensures
        r@ == absolute(base@, url@),
{
    if starts_with(url, "http") {
        String::from_str(url)
    } else if starts_with(url, "//") {
        let mut s = String::from_str("https:");
        s.append(url);
        s
    } else if starts_with(url, "/") {
        let mut s = String::from_str(trim_end_slashes_of(base));
        s.append(url);
        s
    } else {
        let mut s = String::from_str(trim_end_slashes_of(base));
        s.append("/");
        s.append(url);
        s
    }
}

/// The display name of a source category.
pub open spec fn category_name(id: Seq<char>) -> Seq<char> {
    if id == "huggingface"@ {
        "Hugging Face"@
    } else if id == "techcrunch"@ {
        "TechCrunch"@
    } else {
        id
    }
}

/// The display name of a source category.
pub fn format_category_name(id: &str) -> (r: String)
    ensures
        r@ == category_name(id@),
{
    if same_text(id, "huggingface") {
        String::from_str("Hugging Face")
    } else if same_text(id, "techcrunch") {
        String::from_str("TechCrunch")
    } else {
        String::from_str(id)
    }
}

/// The characters that Unicode calls white space.
pub open spec fn is_space(c: char) -> bool {
    c == ' ' || ('\t' <= c && c <= '\r') || c == '\u{85}' || c == '\u{a0}' || c == '\u{1680}'
        || ('\u{2000}' <= c && c <= '\u{200a}') || c == '\u{2028}' || c == '\u{2029}'
        || c == '\u{202f}' || c == '\u{205f}' || c == '\u{3000}'
}

fn is_space_char(c: char) -> (r: bool)
    ensures
        r == is_space(c),
{
    c == ' ' || ('\t' <= c && c <= '\r') || c == '\u{85}' || c == '\u{a0}' || c == '\u{1680}'
        || ('\u{2000}' <= c && c <= '\u{200a}') || c == '\u{2028}' || c == '\u{2029}'
        || c == '\u{202f}' || c == '\u{205f}' || c == '\u{3000}'
}

/// The number of words of `s`: the maximal runs of characters that are not white space.
pub open spec fn words(s: Seq<char>) -> nat
    decreases s.len(),
{
    if s.len() == 0 {
        0
    } else {
        words(s.drop_last()) + if !is_space(s.last()) && (s.len() == 1 || is_space(s[s.len() - 2])) {
            1nat
        } else {
            0nat
        }
    }
}

/// The number of words of `s`.
pub fn word_count(s: &str) -> (r: usize)
    ensures
        r == words(s@),
{
    let n = s.unicode_len();
    let mut count: usize = 0;
    let mut prev_space = true;
    let mut i: usize = 0;
    while i < n
        invariant
            n == s@.len(),
            i <= n,
            count == words(s@.subrange(0, i as int)),
            count <= i,
            prev_space == (i == 0 || is_space(s@[i - 1])),
        decreases n - i,
    {
        let c = s.get_char(i);
        let space = is_space_char(c);
        proof {
            let t = s@.subrange(0, i + 1);
            assert(t.drop_last() =~= s@.subrange(0, i as int));
            assert(t.last() == c);
            if i > 0 {
                assert(t[t.len() - 2] == s@[i - 1]);
            }
        }
        if !space && prev_space {
            count = count + 1;
        }
        prev_space = space;
        i = i + 1;
    }
    assert(s@.subrange(0, n as int) =~= s@);
    count
}

/// Minutes to read `words` words at 200 a minute, rounded up, and at least one.
pub open spec fn read_minutes(words: nat) -> int {
    let m = (words + 199) / 200;
    if m < 1 {
        1
    } else {
        m as int
    }
}

/// Minutes to read `content` at 200 words a minute, rounded up, and at least one.
pub fn calculate_read_time(content: &str) -> (r: i32)
    ensures
        words(content@) <= i32::MAX ==> r as int == read_minutes(words(content@)),
{
    let w = word_count(content);
    let m = w / 200 + if w % 200 == 0 { 0 } else { 1 };
    let m = if m > i32::MAX as usize { i32::MAX as usize } else { m };
    let r = m as i32;
    if r < 1 {
        1
    } else {
        r
    }
}

} // verus!

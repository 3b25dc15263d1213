//! Laws that relate the publisher's operations to each other.

use vstd::prelude::*;
use crate::backups::{backup_folders, folder_name, restored, source_of};
use crate::keys::{
    article_backup_prefix, languages, page_file, production_article_key, staging_article_key,
    ARTICLE_BACKUPS, BACKUPS_ROOT, PRODUCTION_ARTICLES,
};
use crate::model::{Article, ArticleStatus};
use crate::objects::keys_under;
use crate::publisher::{
    article_backup_key, backed_up, backup_step, promoted, released, staged_record, with_staging_pages,
};
use crate::render::{lemma_page_reads, HtmlGenerator};
use crate::text::{dir_of, last_slash, lemma_last_slash_append, no_slash};

verus! {

/// Staging twice in a row writes the same staging pages as staging once, and
/// leaves the article staged both times.
pub proof fn staging_twice_writes_the_same_pages(
    m: Map<Seq<char>, Seq<u8>>,
    g: HtmlGenerator,
    a0: Article,
    a1: Article,
    a2: Article,
    actor1: Seq<char>,
    now1: i64,
    actor2: Seq<char>,
    now2: i64,
    domain: Seq<char>,
    id: Seq<char>,
)
    requires
        staged_record(a1, a0, id, actor1, now1, domain),
        staged_record(a2, a1, id, actor2, now2, domain),
    ensures
        with_staging_pages(with_staging_pages(m, g, a0, id), g, a1, id)
            == with_staging_pages(m, g, a0, id),
        a1.status == ArticleStatus::Staged,
        a2.status == ArticleStatus::Staged,
{
    lemma_page_reads(g, a1, a0, "en"@);
    lemma_page_reads(g, a1, a0, "es"@);
    lemma_page_reads(g, a1, a0, "uk"@);
    let once = with_staging_pages(m, g, a0, id);
    assert(with_staging_pages(once, g, a1, id) =~= once);
}

proof fn lemma_language(lang: Seq<char>)
    requires
        languages().contains(lang),
    ensures
        lang.len() == 2,
        no_slash(lang),
{
    reveal_strlit("en");
    reveal_strlit("es");
    reveal_strlit("uk");
    let j = choose|j: int| 0 <= j < 3 && languages()[j] == lang;
    assert(languages()[0] == "en"@ && languages()[1] == "es"@ && languages()[2] == "uk"@);
}

proof fn lemma_page_file(id: Seq<char>, lang: Seq<char>)
    requires
        no_slash(id),
        no_slash(lang),
    ensures
        no_slash(page_file(id, lang)),
{
    reveal_strlit("-");
    reveal_strlit(".html");
    let f = page_file(id, lang);
    assert forall|i: int| 0 <= i < f.len() implies f[i] != '/' by {
        if i < id.len() {
            assert(f[i] == id[i]);
        } else if i == id.len() {
        } else if i < id.len() + 1 + lang.len() {
            assert(f[i] == lang[i - id.len() - 1]);
        } else {
            assert(f[i] == ".html"@[i - id.len() - 1 - lang.len()]);
        }
    }
}

/// Backup keys, production keys and staging keys never coincide, and backup keys
/// of two languages differ.
proof fn lemma_keys_differ(id: Seq<char>, ts: Seq<char>, l1: Seq<char>, l2: Seq<char>)
    requires
        languages().contains(l1),
        languages().contains(l2),
    ensures
        article_backup_key(id, ts, l1) != production_article_key(id, l2),
        article_backup_key(id, ts, l1) != staging_article_key(id, l2),
        production_article_key(id, l1) != staging_article_key(id, l2),
        l1 != l2 ==> article_backup_key(id, ts, l1) != article_backup_key(id, ts, l2),
        l1 != l2 ==> production_article_key(id, l1) != production_article_key(id, l2),
{
    reveal_strlit("backups/articles/");
    reveal_strlit("production/articles/");
    reveal_strlit("staging/articles/");
    reveal_strlit("-");
    reveal_strlit(".html");
    let b = article_backup_key(id, ts, l1);
    let p = production_article_key(id, l2);
    let s = staging_article_key(id, l2);
    assert(b[0] == 'b');
    assert(p[0] == 'p');
    assert(s[0] == 's');
    assert(production_article_key(id, l1)[0] == 'p');
    lemma_language(l1);
    lemma_language(l2);
    if l1 != l2 {
        let b2 = article_backup_key(id, ts, l2);
        let n = article_backup_prefix(id, ts).len() + id.len() + 1;
        assert(exists|i: int| 0 <= i < 2 && l1[i] != l2[i]) by {
            if forall|i: int| 0 <= i < 2 ==> l1[i] == l2[i] {
                assert(l1 =~= l2);
            }
        }
        let i = choose|i: int| 0 <= i < 2 && l1[i] != l2[i];
        let bh = article_backup_prefix(id, ts) + id + "-"@;
        assert(b =~= bh + l1 + ".html"@);
        assert(b2 =~= bh + l2 + ".html"@);
        assert(b[bh.len() + i] == l1[i]);
        assert(b2[bh.len() + i] == l2[i]);
        let pa = production_article_key(id, l1);
        let ph = PRODUCTION_ARTICLES@ + id + "-"@;
        assert(pa =~= ph + l1 + ".html"@);
        assert(p =~= ph + l2 + ".html"@);
        assert(pa[ph.len() + i] == l1[i]);
        assert(p[ph.len() + i] == l2[i]);
    }
}

/// A promotion leaves, for each production page that existed before it, a copy
/// in the backup folder named by its timestamp, and that folder is one that
/// `list_backups` reports, under that timestamp.
pub proof fn promotion_backs_up_replaced_pages(
    m: Map<Seq<char>, Seq<u8>>,
    id: Seq<char>,
    ts: Seq<char>,
    lang: Seq<char>,
)
    requires
        languages().contains(lang),
        no_slash(id),
        no_slash(ts),
        m.contains_key(production_article_key(id, lang)),
    ensures
        released(m, id, ts).contains_key(article_backup_key(id, ts, lang)),
        released(m, id, ts)[article_backup_key(id, ts, lang)] == m[production_article_key(id, lang)],
        backup_folders(released(m, id, ts)).contains(article_backup_prefix(id, ts)),
        folder_name(article_backup_prefix(id, ts)) == ts,
{
    let en = languages()[0];
    let es = languages()[1];
    let uk = languages()[2];
    assert(languages().contains(en) && languages().contains(es) && languages().contains(uk));
    lemma_keys_differ(id, ts, en, es);
    lemma_keys_differ(id, ts, en, uk);
    lemma_keys_differ(id, ts, es, uk);
    lemma_keys_differ(id, ts, es, en);
    lemma_keys_differ(id, ts, uk, en);
    lemma_keys_differ(id, ts, uk, es);
    lemma_keys_differ(id, ts, en, en);
    lemma_keys_differ(id, ts, es, es);
    lemma_keys_differ(id, ts, uk, uk);
    reveal_with_fuel(backed_up, 4);
    reveal_with_fuel(promoted, 4);
    let bk = article_backup_key(id, ts, lang);
    let pk = production_article_key(id, lang);
    let b1 = backed_up(m, id, ts, 1);
    let b2 = backed_up(m, id, ts, 2);
    let b3 = backed_up(m, id, ts, 3);
    assert(b1 == backup_step(m, id, ts, en));
    assert(b2 == backup_step(b1, id, ts, es));
    assert(b3 == backup_step(b2, id, ts, uk));
    assert(b3.contains_key(bk) && b3[bk] == m[pk]);
    let p1 = promoted(b3, id, 1);
    let p2 = promoted(b3, id, 2);
    let p3 = promoted(b3, id, 3);
    assert(p3.contains_key(bk) && p3[bk] == m[pk]);
    // the backup folder of that key
    let prefix = article_backup_prefix(id, ts);
    lemma_language(lang);
    lemma_page_file(id, lang);
    lemma_last_slash_append(prefix, page_file(id, lang));
    reveal_strlit("/");
    reveal_strlit("backups/");
    reveal_strlit("backups/articles/");
    let head = ARTICLE_BACKUPS@ + id + "/"@;
    assert(prefix =~= head + ts + "/"@);
    assert(last_slash(prefix) == prefix.len() - 1);
    assert(dir_of(prefix) =~= prefix);
    assert(dir_of(bk) == prefix);
    assert(bk.subrange(0, 8) =~= BACKUPS_ROOT@);
    assert(keys_under(p3, BACKUPS_ROOT@).contains(bk));
    assert(backup_folders(p3).contains(dir_of(bk)));
    // its timestamp
    let d = prefix.drop_last();
    assert(d =~= head + ts);
    lemma_last_slash_append(head, ts);
    assert(last_slash(head) == head.len() - 1);
    assert(d.subrange(last_slash(d) + 1, d.len() as int) =~= ts);
}

/// A rollback to a backup folder puts back, byte for byte, every file of that
/// folder under the same name in the folder it restores.
pub proof fn rollback_restores_backed_up_bytes(
    m: Map<Seq<char>, Seq<u8>>,
    folder: Seq<char>,
    target: Seq<char>,
    name: Seq<char>,
)
    requires
        m.contains_key(folder + name),
    ensures
        restored(m, folder, target).contains_key(target + name),
        restored(m, folder, target)[target + name] == m[folder + name],
{
    let k = target + name;
    assert(k.subrange(0, target.len() as int) =~= target);
    assert(k.subrange(target.len() as int, k.len() as int) =~= name);
    assert(source_of(folder, target, k) == folder + name);
    assert((folder + name).subrange(0, folder.len() as int) =~= folder);
    assert(keys_under(m, folder).contains(folder + name));
}

} // verus!

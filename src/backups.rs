//! Backups: the folders under `backups/` that hold copies of production pages.

use vstd::prelude::*;
use crate::keys::BACKUPS_ROOT;
use crate::objects::{keys_under, ObjectStore};
use crate::keys::in_folder;
use crate::text::{dir_of, find_last_slash, has_prefix, last_slash, lemma_last_slash, prefix_to, same_text, suffix_from};
use crate::timestamp::{parse_timestamp, timestamp_seconds};

verus! {

/// One backup folder: its timestamp, its path, and the instant the timestamp names.
#[derive(Debug)]
pub struct BackupInfo {
    pub timestamp: String,
    pub path: String,
    pub created_at: i64,
}

/// Every folder that holds a backed-up object.
pub open spec fn backup_folders(m: Map<Seq<char>, Seq<u8>>) -> Set<Seq<char>> {
    keys_under(m, BACKUPS_ROOT@).map(|k: Seq<char>| dir_of(k))
}

/// The last component of a folder path that ends in `/`.
pub open spec fn folder_name(dir: Seq<char>) -> Seq<char> {
    let d = dir.drop_last();
    d.subrange(last_slash(d) + 1, d.len() as int)
}

/// `b` describes one backup folder of `m` as `list_backups` reports it.
pub open spec fn describes(m: Map<Seq<char>, Seq<u8>>, b: BackupInfo) -> bool {
    &&& backup_folders(m).contains(b.path@)
    &&& b.timestamp@ == folder_name(b.path@)
    &&& b.created_at == timestamp_seconds(b.timestamp@)
}

/// Newest first.
pub open spec fn newest_first(s: Seq<BackupInfo>) -> bool {
    forall|i: int, j: int| 0 <= i < j < s.len() ==> s[i].created_at >= s[j].created_at
}

/// The backup folders of `store`, each once, the most recent first; a folder
/// whose timestamp does not parse counts as the oldest.
pub fn list_backups(store: &ObjectStore) -> (r: Vec<BackupInfo>)
    requires
        store.wf(),
    ensures
        newest_first(r@),
        forall|i: int| 0 <= i < r@.len() ==> describes(store@, #[trigger] r@[i]),
        forall|i: int, j: int| 0 <= i < j < r@.len() ==> r@[i].path@ != r@[j].path@,
        forall|d: Seq<char>| #[trigger] backup_folders(store@).contains(d)
            ==> exists|i: int| 0 <= i < r@.len() && r@[i].path@ == d,
{
    let keys = store.keys_with_prefix(BACKUPS_ROOT);
    let mut r: Vec<BackupInfo> = Vec::new();
    let mut i: usize = 0;
    while i < keys.len()
        invariant
            store.wf(),
            i <= keys@.len(),
            forall|a: int| 0 <= a < keys@.len() ==> #[trigger] keys_under(store@, BACKUPS_ROOT@).contains(keys@[a]@),
            newest_first(r@),
            forall|a: int| 0 <= a < r@.len() ==> describes(store@, #[trigger] r@[a]),
            forall|a: int, c: int| 0 <= a < c < r@.len() ==> r@[a].path@ != r@[c].path@,
            forall|a: int| 0 <= a < i ==> exists|c: int| 0 <= c < r@.len() && r@[c].path@ == dir_of(#[trigger] keys@[a]@),
        decreases keys@.len() - i,
    {
        let key = keys[i].as_str();
        proof {
            assert(keys_under(store@, BACKUPS_ROOT@).contains(keys@[i as int]@));
            reveal_strlit("backups/");
            lemma_last_slash(key@);
            assert(key@.subrange(0, 8)[7] == '/');
            assert(key@[7] == '/');
        }
        let cut = match find_last_slash(key) {
            Some(j) => j,
            None => 0,
        };
        let dir = prefix_to(key, cut + 1);
        assert(dir@ == dir_of(key@));
        proof {
            assert(keys_under(store@, BACKUPS_ROOT@).contains(key@));
            assert(backup_folders(store@).contains(dir@));
        }
        let mut found = false;
        let mut a: usize = 0;
        while a < r.len()
            invariant
                a <= r@.len(),
                !found ==> forall|c: int| 0 <= c < a ==> r@[c].path@ != dir@,
                found ==> exists|c: int| 0 <= c < r@.len() && r@[c].path@ == dir@,
            decreases r@.len() - a,
        {
            if same_text(r[a].path.as_str(), dir.as_str()) {
                found = true;
            }
            a = a + 1;
        }
        if !found {
            let name_end = cut;
            let inner = prefix_to(dir.as_str(), name_end);
            assert(inner@ =~= dir@.drop_last());
            proof {
                lemma_last_slash(inner@);
            }
            let start = match find_last_slash(inner.as_str()) {
                Some(j) => j + 1,
                None => 0,
            };
            let ts = suffix_from(inner.as_str(), start);
            let created_at = parse_timestamp(ts.as_str());
            let info = BackupInfo { timestamp: ts, path: dir, created_at };
            let mut p: usize = 0;
            while p < r.len() && r[p].created_at >= created_at
                invariant
                    p <= r@.len(),
                    forall|c: int| 0 <= c < p ==> r@[c].created_at >= created_at,
                decreases r@.len() - p,
            {
                p = p + 1;
            }
            let ghost before = r@;
            r.insert(p, info);
            proof {
                assert forall|c: int| 0 <= c < r@.len() implies #[trigger] r@[c] == if c < p {
                    before[c]
                } else if c == p {
                    info
                } else {
                    before[c - 1]
                } by {}
                assert forall|x: int, y: int| 0 <= x < y < r@.len() implies r@[x].created_at >= r@[y].created_at by {
                    if x < p && y == p {
                    } else if x == p && y > p {
                        assert(r@[y] == before[y - 1]);
                        if y - 1 >= p {
                            assert(before[p as int].created_at < created_at || p == before.len());
                        }
                    }
                }
                assert forall|x: int| 0 <= x < r@.len() implies describes(store@, #[trigger] r@[x]) by {
                    if x != p {
                        let y = if x < p { x } else { x - 1 };
                        assert(describes(store@, before[y]));
                    }
                }
                assert forall|x: int, y: int| 0 <= x < y < r@.len() implies r@[x].path@ != r@[y].path@ by {
                    let xx = if x < p { x } else { x - 1 };
                    let yy = if y < p { y } else { y - 1 };
                    if x != p && y != p {
                        assert(before[xx].path@ != before[yy].path@);
                    } else if x == p {
                        assert(before[yy].path@ != dir@);
                    } else {
                        assert(before[xx].path@ != dir@);
                    }
                }
                assert forall|b: int| 0 <= b < i + 1 implies exists|c: int| 0 <= c < r@.len() && r@[c].path@ == dir_of(#[trigger] keys@[b]@) by {
                    if b == i {
                        assert(r@[p as int].path@ == dir_of(keys@[b]@));
                    } else {
                        let c = choose|c: int| 0 <= c < before.len() && before[c].path@ == dir_of(keys@[b]@);
                        let c2 = if c < p { c } else { c + 1 };
                        assert(r@[c2] == before[c]);
                    }
                }
            }
        }
        i = i + 1;
    }
    proof {
        assert forall|d: Seq<char>| #[trigger] backup_folders(store@).contains(d)
            implies exists|c: int| 0 <= c < r@.len() && r@[c].path@ == d by {
            let k = choose|k: Seq<char>| keys_under(store@, BACKUPS_ROOT@).contains(k) && dir_of(k) == d;
            let a = choose|a: int| 0 <= a < keys@.len() && keys@[a]@ == k;
            assert(exists|c: int| 0 <= c < r@.len() && r@[c].path@ == dir_of(keys@[a]@));
        }
    }
    r
}

/// Neither of two folders lies inside the other: they differ at some position.
pub open spec fn apart(a: Seq<char>, b: Seq<char>) -> bool {
    exists|i: int| 0 <= i < a.len() && i < b.len() && a[i] != b[i]
}

/// The key under `folder` whose copy `k` receives on a restore to `target`, if `k`
/// is under `target`.
pub open spec fn source_of(folder: Seq<char>, target: Seq<char>, k: Seq<char>) -> Seq<char> {
    folder + k.subrange(target.len() as int, k.len() as int)
}

/// A restore from `folder` to `target` writes `k`, taking its body from a key of `src`.
pub open spec fn receives(
    src: Set<Seq<char>>,
    folder: Seq<char>,
    target: Seq<char>,
    k: Seq<char>,
) -> bool {
    has_prefix(k, target) && src.contains(source_of(folder, target, k))
}

/// `m` after each key of `src` (all under `folder`) was copied to `target` followed
/// by the rest of the key after `folder`.
pub open spec fn copied_over(
    m: Map<Seq<char>, Seq<u8>>,
    src: Set<Seq<char>>,
    folder: Seq<char>,
    target: Seq<char>,
) -> Map<Seq<char>, Seq<u8>> {
    Map::new(
        |k: Seq<char>| m.contains_key(k) || receives(src, folder, target, k),
        |k: Seq<char>|
            if receives(src, folder, target, k) {
                m[source_of(folder, target, k)]
            } else {
                m[k]
            },
    )
}

/// `m` after every object under `folder` was copied to the same name under `target`.
pub open spec fn restored(
    m: Map<Seq<char>, Seq<u8>>,
    folder: Seq<char>,
    target: Seq<char>,
) -> Map<Seq<char>, Seq<u8>> {
    copied_over(m, keys_under(m, folder), folder, target)
}

proof fn lemma_apart(a: Seq<char>, b: Seq<char>, k: Seq<char>)
    requires
        apart(a, b),
        has_prefix(k, a),
    ensures
        !has_prefix(k, b),
{
    let i = choose|i: int| 0 <= i < a.len() && i < b.len() && a[i] != b[i];
    assert(k.subrange(0, a.len() as int)[i] == a[i]);
    if has_prefix(k, b) {
        assert(k.subrange(0, b.len() as int)[i] == b[i]);
    }
}

proof fn lemma_split(k: Seq<char>, p: Seq<char>)
    requires
        has_prefix(k, p),
    ensures
        k == p + k.subrange(p.len() as int, k.len() as int),
{
    assert(k =~= k.subrange(0, p.len() as int) + k.subrange(p.len() as int, k.len() as int));
}

proof fn lemma_join(p: Seq<char>, x: Seq<char>)
    ensures
        has_prefix(p + x, p),
        (p + x).subrange(p.len() as int, (p + x).len() as int) == x,
{
    assert((p + x).subrange(0, p.len() as int) =~= p);
    assert((p + x).subrange(p.len() as int, (p + x).len() as int) =~= x);
}

/// Copies every object under `folder` to the same name under `target`.
pub fn restore_folder(store: &mut ObjectStore, folder: &str, target: &str)
    requires
        old(store).wf(),
        apart(folder@, target@),
    ensures
        final(store).wf(),
        final(store)@ == restored(old(store)@, folder@, target@),
{
    let ghost m = store@;
    let ghost f = folder@;
    let ghost t = target@;
    let keys = store.keys_with_prefix(folder);
    let mut i: usize = 0;
    let ghost mut done: Set<Seq<char>> = Set::empty();
    assert(store@ =~= copied_over(m, done, f, t));
    while i < keys.len()
        invariant
            store.wf(),
            f == folder@,
            t == target@,
            apart(f, t),
            i <= keys@.len(),
            forall|a: int, c: int| 0 <= a < c < keys@.len() ==> keys@[a]@ != keys@[c]@,
            forall|a: int| 0 <= a < keys@.len() ==> #[trigger] keys_under(m, f).contains(keys@[a]@),
            forall|k: Seq<char>| #[trigger] keys_under(m, f).contains(k)
                ==> exists|a: int| 0 <= a < keys@.len() && keys@[a]@ == k,
            done == Set::new(|k: Seq<char>| exists|a: int| 0 <= a < i && keys@[a]@ == k),
            store@ == copied_over(m, done, f, t),
        decreases keys@.len() - i,
    {
        let key = keys[i].as_str();
        proof {
            assert(keys_under(m, f).contains(key@));
        }
        let name = suffix_from(key, folder.unicode_len());
        let dst = in_folder(target, name.as_str());
        let ghost before = store@;
        proof {
            lemma_apart(f, t, key@);
            assert(!receives(done, f, t, key@));
            lemma_split(key@, f);
            lemma_join(t, name@);
        }
        let r = store.copy(key, dst.as_str());
        proof {
            let nd = done.insert(key@);
            assert(nd =~= Set::new(|k: Seq<char>| exists|a: int| 0 <= a < i + 1 && keys@[a]@ == k)) by {
                assert forall|k: Seq<char>| nd.contains(k) implies exists|a: int| 0 <= a < i + 1 && keys@[a]@ == k by {
                    if k == key@ {
                        assert(keys@[i as int]@ == k);
                    } else {
                        let a = choose|a: int| 0 <= a < i && keys@[a]@ == k;
                        assert(0 <= a < i + 1 && keys@[a]@ == k);
                    }
                }
            }
            assert forall|k: Seq<char>| #[trigger] store@.contains_key(k) == copied_over(m, nd, f, t).contains_key(k)
                && (store@.contains_key(k) ==> store@[k] == copied_over(m, nd, f, t)[k]) by {
                if has_prefix(k, t) {
                    lemma_split(k, t);
                    let x = k.subrange(t.len() as int, k.len() as int);
                    lemma_join(f, x);
                    if k == dst@ {
                        assert(x == name@);
                        assert(source_of(f, t, k) == key@);
                    } else {
                        if source_of(f, t, k) == key@ {
                            assert(f + x == f + name@);
                            assert(x =~= (f + x).subrange(f.len() as int, (f + x).len() as int));
                            assert(x == name@);
                        }
                    }
                }
            }
            assert(store@ =~= copied_over(m, nd, f, t));
            done = nd;
        }
        i = i + 1;
    }
    proof {
        assert(done =~= keys_under(m, f)) by {
            assert forall|k: Seq<char>| done.contains(k) implies keys_under(m, f).contains(k) by {
                let a = choose|a: int| 0 <= a < i && keys@[a]@ == k;
                assert(keys_under(m, f).contains(keys@[a]@));
            }
        }
    }
}

} // verus!

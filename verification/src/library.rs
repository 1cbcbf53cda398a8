//! Decisions over the mangas of a backup: which are already followed, which
//! characters of their titles cannot be searched for, and which were found.
use vstd::prelude::*;

use crate::tachiyomi_backup::{BackupManga, title_text};
use crate::titles::{dropped_chars, remove_accents};
use crate::text::to_owned_string;

verus! {

/// Whether a manga has no tracker entry yet.
pub open spec fn is_untracked(m: BackupManga) -> bool {
    m.tracking@.len() == 0
}

/// `v` lists, in increasing order and once each, exactly the indices of
/// `mangas` whose tracking state is `untracked`.
pub open spec fn lists_indices(v: Seq<usize>, mangas: Seq<BackupManga>, untracked: bool) -> bool {
    &&& forall|a: int, b: int| 0 <= a < b < v.len() ==> #[trigger] v[a] < #[trigger] v[b]
    &&& forall|a: int| 0 <= a < v.len() ==> #[trigger] v[a] < mangas.len()
    &&& forall|a: int| 0 <= a < v.len() ==> is_untracked(mangas[#[trigger] v[a] as int]) == untracked
    &&& forall|i: int| 0 <= i < mangas.len() && is_untracked(#[trigger] mangas[i]) == untracked ==> v.contains(i as usize)
}

proof fn lemma_lists_step(v: Seq<usize>, mangas: Seq<BackupManga>, untracked: bool, i: int)
    requires
        0 <= i < mangas.len(),
        mangas.len() <= usize::MAX,
        lists_indices(v, mangas.take(i), untracked),
    ensures
        is_untracked(mangas[i]) == untracked ==> lists_indices(v.push(i as usize), mangas.take(i + 1), untracked),
        is_untracked(mangas[i]) != untracked ==> lists_indices(v, mangas.take(i + 1), untracked),
{
    let pre = mangas.take(i);
    let post = mangas.take(i + 1);
    assert forall|k: int| 0 <= k < i implies pre[k] == post[k] by {}
    assert(post[i] == mangas[i]);
    if is_untracked(mangas[i]) == untracked {
        let w = v.push(i as usize);
        assert forall|a: int| 0 <= a < w.len() implies #[trigger] w[a] < post.len() && is_untracked(post[w[a] as int]) == untracked by {
            if a < v.len() {
                assert(w[a] == v[a]);
                assert(v[a] < i);
                assert(post[v[a] as int] == pre[v[a] as int]);
            }
        }
        assert forall|k: int| 0 <= k < post.len() && is_untracked(#[trigger] post[k]) == untracked implies w.contains(k as usize) by {
            if k < i {
                assert(is_untracked(pre[k]) == untracked);
                let j = choose|j: int| 0 <= j < v.len() && v[j] == k as usize;
                assert(w[j] == v[j]);
            } else {
                assert(w[w.len() - 1] == i as usize);
            }
        }
        assert forall|a: int, b: int| 0 <= a < b < w.len() implies w[a] < w[b] by {
            if b < v.len() {
                assert(w[a] == v[a] && w[b] == v[b]);
            } else {
                assert(w[a] == v[a]);
                assert(v[a] < i);
            }
        }
    } else {
        assert forall|a: int| 0 <= a < v.len() implies #[trigger] v[a] < post.len() && is_untracked(post[v[a] as int]) == untracked by {
            assert(v[a] < i);
            assert(post[v[a] as int] == pre[v[a] as int]);
        }
        assert forall|k: int| 0 <= k < post.len() && is_untracked(#[trigger] post[k]) == untracked implies v.contains(k as usize) by {
            assert(is_untracked(pre[k]) == untracked);
        }
    }
}

/// Splits the mangas into those without a tracker entry and those with one,
/// as two lists of indices into `mangas`, each in the original order.
pub fn split_by_tracking(mangas: &[BackupManga]) -> (r: (Vec<usize>, Vec<usize>))
    ensures
        lists_indices(r.0@, mangas@, true),
        lists_indices(r.1@, mangas@, false),
{
    let mut untracked: Vec<usize> = Vec::new();
    let mut followed: Vec<usize> = Vec::new();
    let mut i: usize = 0;
    while i < mangas.len()
        invariant
            i <= mangas@.len(),
            lists_indices(untracked@, mangas@.take(i as int), true),
            lists_indices(followed@, mangas@.take(i as int), false),
        decreases mangas@.len() - i,
    {
        proof {
            lemma_lists_step(untracked@, mangas@, true, i as int);
            lemma_lists_step(followed@, mangas@, false, i as int);
        }
        if mangas[i].tracking.len() == 0 {
            untracked.push(i);
        } else {
            followed.push(i);
        }
        i = i + 1;
    }
    assert(mangas@.take(mangas@.len() as int) =~= mangas@);
    (untracked, followed)
}

/// Whether some manga's title drops the character `c` when accents are removed.
pub open spec fn dropped_somewhere(mangas: Seq<BackupManga>, c: char) -> bool {
    exists|i: int| 0 <= i < mangas.len() && #[trigger] dropped_chars(title_text(mangas[i])).contains(c)
}

/// `v` is in strictly increasing order of code points.
pub open spec fn strictly_increasing(v: Seq<char>) -> bool {
    forall|a: int, b: int| 0 <= a < b < v.len() ==> v[a] < v[b]
}

/// Adds `c` to a strictly increasing list of characters, unless it is there.
fn insert_sorted(set: &mut Vec<char>, c: char)
    requires
        strictly_increasing(old(set)@),
    ensures
        strictly_increasing(final(set)@),
        forall|d: char| final(set)@.contains(d) <==> (old(set)@.contains(d) || d == c),
{
    let mut pos: usize = 0;
    while pos < set.len() && set[pos] < c
        invariant
            pos <= set@.len(),
            set@ == old(set)@,
            strictly_increasing(set@),
            forall|a: int| 0 <= a < pos ==> set@[a] < c,
        decreases set@.len() - pos,
    {
        pos = pos + 1;
    }
    if pos < set.len() && set[pos] == c {
        return;
    }
    let ghost before = set@;
    assert(before == old(set)@);
    set.insert(pos, c);
    assert forall|d: char| set@.contains(d) <==> (before.contains(d) || d == c) by {
        if set@.contains(d) {
            let j = choose|j: int| 0 <= j < set@.len() && set@[j] == d;
            if j < pos {
                assert(before[j] == d);
            } else if j > pos {
                assert(before[j - 1] == d);
            }
        }
        if before.contains(d) {
            let j = choose|j: int| 0 <= j < before.len() && before[j] == d;
            if j < pos {
                assert(set@[j] == d);
            } else {
                assert(set@[j + 1] == d);
            }
        }
        if d == c {
            assert(set@[pos as int] == c);
        }
    }
    assert forall|d: char| #[trigger] set@.contains(d) <==> (old(set)@.contains(d) || d == c) by {
        assert(set@.contains(d) <==> (before.contains(d) || d == c));
    }
    assert forall|a: int, b: int| 0 <= a < b < set@.len() implies set@[a] < set@[b] by {
        if b < pos {
        } else if b == pos {
        } else if a == pos {
            assert(set@[b] == before[b - 1]);
            if pos < before.len() {
                assert(c <= before[pos as int]);
            }
        } else if a < pos {
            assert(set@[b] == before[b - 1]);
        } else {
            assert(set@[a] == before[a - 1]);
            assert(set@[b] == before[b - 1]);
        }
    }
}

/// The characters that are dropped from the mangas' titles when accents are
/// removed, each once, in increasing order of code point.
pub fn dropped_characters(mangas: &[BackupManga]) -> (r: Vec<char>)
    ensures
        strictly_increasing(r@),
        forall|c: char| r@.contains(c) <==> dropped_somewhere(mangas@, c),
{
    let mut set: Vec<char> = Vec::new();
    let mut i: usize = 0;
    while i < mangas.len()
        invariant
            i <= mangas@.len(),
            strictly_increasing(set@),
            forall|c: char| #[trigger] set@.contains(c) <==> dropped_somewhere(mangas@.take(i as int), c),
        decreases mangas@.len() - i,
    {
        let (_, flag, removed) = remove_accents(to_owned_string(mangas[i].title()));
        let ghost before = set@;
        if flag {
            let mut j: usize = 0;
            while j < removed.len()
                invariant
                    j <= removed@.len(),
                    strictly_increasing(set@),
                    forall|c: char| #[trigger] set@.contains(c) <==> (before.contains(c) || removed@.take(j as int).contains(c)),
                decreases removed@.len() - j,
            {
                let ghost mid = set@;
                insert_sorted(&mut set, removed[j]);
                proof {
                    assert forall|c: char| removed@.take(j + 1).contains(c) <==> (removed@.take(
                        j as int,
                    ).contains(c) || c == removed@[j as int]) by {
                        if removed@.take(j + 1).contains(c) {
                            let k = choose|k: int| 0 <= k < j + 1 && #[trigger] removed@.take(j + 1)[k] == c;
                            if k < j {
                                assert(removed@.take(j as int)[k] == c);
                            }
                        }
                        if removed@.take(j as int).contains(c) {
                            let k = choose|k: int| 0 <= k < j && #[trigger] removed@.take(j as int)[k] == c;
                            assert(removed@.take(j + 1)[k] == c);
                        }
                        if c == removed@[j as int] {
                            assert(removed@.take(j + 1)[j as int] == c);
                        }
                    }
                    assert forall|c: char| set@.contains(c) <==> (before.contains(c) || removed@.take(j + 1).contains(c)) by {
                        assert(set@.contains(c) <==> (mid.contains(c) || c == removed@[j as int]));
                        assert(mid.contains(c) <==> (before.contains(c) || removed@.take(j as int).contains(c)));
                    }
                }
                j = j + 1;
            }
            assert(removed@.take(removed@.len() as int) =~= removed@);
        } else {
            proof {
                crate::titles::lemma_no_drops_without_flag(title_text(mangas@[i as int]));
            }
        }
        proof {
            let ti = title_text(mangas@[i as int]);
            assert forall|c: char| set@.contains(c) <==> dropped_somewhere(mangas@.take(i + 1), c) by {
                let pre = mangas@.take(i as int);
                let post = mangas@.take(i + 1);
                if dropped_somewhere(post, c) {
                    let k = choose|k: int| 0 <= k < post.len() && #[trigger] dropped_chars(title_text(post[k])).contains(c);
                    if k < i {
                        assert(pre[k] == post[k]);
                        assert(dropped_somewhere(pre, c));
                    } else {
                        assert(post[k] == mangas@[i as int]);
                    }
                }
                if dropped_somewhere(pre, c) {
                    let k = choose|k: int| 0 <= k < pre.len() && #[trigger] dropped_chars(title_text(pre[k])).contains(c);
                    assert(pre[k] == post[k]);
                    assert(dropped_somewhere(post, c));
                }
                if dropped_chars(ti).contains(c) {
                    assert(post[i as int] == mangas@[i as int]);
                    assert(dropped_somewhere(post, c));
                }
            }
        }
        i = i + 1;
    }
    assert(mangas@.take(mangas@.len() as int) =~= mangas@);
    set
}


/// The indices of the searches that found nothing, in order.
pub open spec fn missing_indices(results: Seq<Option<u64>>) -> Seq<usize>
    decreases results.len(),
{
    if results.len() == 0 {
        Seq::empty()
    } else {
        let p = missing_indices(results.drop_last());
        if results.last() is None {
            p.push((results.len() - 1) as usize)
        } else {
            p
        }
    }
}

/// The searches that found an id, as pairs of index and id, in order.
pub open spec fn found_pairs(results: Seq<Option<u64>>) -> Seq<(usize, u64)>
    decreases results.len(),
{
    if results.len() == 0 {
        Seq::empty()
    } else {
        let p = found_pairs(results.drop_last());
        match results.last() {
            Some(id) => p.push(((results.len() - 1) as usize, id)),
            None => p,
        }
    }
}

/// Every search is accounted for once: a search that found an id appears
/// with that id among the found pairs, one that found nothing among the
/// missing indices, and the two lists hold as many entries as there are
/// searches. Nothing else appears in them.
pub proof fn law_partition_accounts_for_every_result(results: Seq<Option<u64>>)
    requires
        results.len() <= usize::MAX,
    ensures
        forall|i: int| 0 <= i < results.len() && #[trigger] results[i] is Some ==> found_pairs(results).contains(
            (i as usize, results[i]->0),
        ),
        forall|i: int| 0 <= i < results.len() && #[trigger] results[i] is None ==> missing_indices(
            results,
        ).contains(i as usize),
        forall|k: int| 0 <= k < found_pairs(results).len() ==> (#[trigger] found_pairs(results)[k]).0 < results.len()
            && results[found_pairs(results)[k].0 as int] == Some(found_pairs(results)[k].1),
        forall|k: int| 0 <= k < missing_indices(results).len() ==> (#[trigger] missing_indices(results)[k]) < results.len()
            && results[missing_indices(results)[k] as int] is None,
        missing_indices(results).len() + found_pairs(results).len() == results.len(),
    decreases results.len(),
{
    if results.len() > 0 {
        let p = results.drop_last();
        law_partition_accounts_for_every_result(p);
        let n = results.len() - 1;
        let f = found_pairs(results);
        let m = missing_indices(results);
        let fp = found_pairs(p);
        let mp = missing_indices(p);
        assert forall|i: int| 0 <= i < results.len() && #[trigger] results[i] is Some implies f.contains(
            (i as usize, results[i]->0),
        ) by {
            if i < n {
                assert(p[i] == results[i]);
                assert(fp.contains((i as usize, p[i]->0)));
                let k = choose|k: int| 0 <= k < fp.len() && fp[k] == (i as usize, p[i]->0);
                assert(f[k] == fp[k]);
            } else {
                assert(f[fp.len() as int] == (i as usize, results[i]->0));
            }
        }
        assert forall|i: int| 0 <= i < results.len() && #[trigger] results[i] is None implies m.contains(
            i as usize,
        ) by {
            if i < n {
                assert(p[i] == results[i]);
                assert(mp.contains(i as usize));
                let k = choose|k: int| 0 <= k < mp.len() && mp[k] == i as usize;
                assert(m[k] == mp[k]);
            } else {
                assert(m[mp.len() as int] == i as usize);
            }
        }
        assert forall|k: int| 0 <= k < f.len() implies (#[trigger] f[k]).0 < results.len() && results[f[k].0 as int]
            == Some(f[k].1) by {
            if k < fp.len() {
                assert(f[k] == fp[k]);
                assert(fp[k].0 < p.len());
                assert(p[fp[k].0 as int] == results[fp[k].0 as int]);
            }
        }
        assert forall|k: int| 0 <= k < m.len() implies (#[trigger] m[k]) < results.len() && results[m[k] as int]
            is None by {
            if k < mp.len() {
                assert(m[k] == mp[k]);
                assert(mp[k] < p.len());
                assert(p[mp[k] as int] == results[mp[k] as int]);
            }
        }
    }
}

/// Splits the results of searches into the indices that found nothing and
/// the pairs of index and id of those that found an id, both in order.
pub fn partition_found(results: &[Option<u64>]) -> (r: (Vec<usize>, Vec<(usize, u64)>))
    ensures
        r.0@ == missing_indices(results@),
        r.1@ == found_pairs(results@),
{
    let mut missing: Vec<usize> = Vec::new();
    let mut found: Vec<(usize, u64)> = Vec::new();
    let mut i: usize = 0;
    while i < results.len()
        invariant
            i <= results@.len(),
            missing@ == missing_indices(results@.take(i as int)),
            found@ == found_pairs(results@.take(i as int)),
        decreases results@.len() - i,
    {
        let ghost next = results@.take(i + 1);
        assert(next.drop_last() =~= results@.take(i as int));
        assert(next.last() == results@[i as int]);
        match results[i] {
            Some(id) => found.push((i, id)),
            None => missing.push(i),
        }
        i = i + 1;
    }
    assert(results@.take(results@.len() as int) =~= results@);
    (missing, found)
}

} // verus!

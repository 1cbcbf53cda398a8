//! The answers already received from AniList, by the title that was searched.
use vstd::prelude::*;

use crate::responses::Medum;
use crate::text::str_equals;

verus! {

/// What a list of entries stands for: each title maps to its media, a later
/// entry for the same title replacing an earlier one.
pub open spec fn entries_map(s: Seq<(String, Vec<Medum>)>) -> Map<Seq<char>, Seq<Medum>>
    decreases s.len(),
{
    if s.len() == 0 {
        Map::empty()
    } else {
        entries_map(s.drop_last()).insert(s.last().0@, s.last().1@)
    }
}

/// No title occurs twice among the entries.
pub open spec fn titles_unique(s: Seq<(String, Vec<Medum>)>) -> bool {
    forall|i: int, j: int| 0 <= i < j < s.len() ==> (#[trigger] s[i]).0@ != (#[trigger] s[j]).0@
}

/// With distinct titles, a title is in the map exactly when an entry holds
/// it, and it maps to that entry's media; the map has one key per entry.
pub proof fn lemma_entries_map(s: Seq<(String, Vec<Medum>)>)
    requires
        titles_unique(s),
    ensures
        forall|k: Seq<char>| #[trigger] entries_map(s).contains_key(k) <==> exists|i: int|
            0 <= i < s.len() && (#[trigger] s[i]).0@ == k,
        forall|i: int| 0 <= i < s.len() ==> #[trigger] entries_map(s)[s[i].0@] == s[i].1@,
        entries_map(s).dom().finite(),
        entries_map(s).dom().len() == s.len(),
    decreases s.len(),
{
    if s.len() > 0 {
        let p = s.drop_last();
        assert forall|i: int, j: int| 0 <= i < j < p.len() implies (#[trigger] p[i]).0@ != (
        #[trigger] p[j]).0@ by {
            assert(p[i] == s[i] && p[j] == s[j]);
        }
        lemma_entries_map(p);
        let last = s.last();
        assert forall|k: Seq<char>| #[trigger] entries_map(s).contains_key(k) <==> exists|i: int|
            0 <= i < s.len() && (#[trigger] s[i]).0@ == k by {
            if entries_map(s).contains_key(k) && k != last.0@ {
                assert(entries_map(p).contains_key(k));
                let i = choose|i: int| 0 <= i < p.len() && (#[trigger] p[i]).0@ == k;
                assert(s[i] == p[i]);
            }
            if k == last.0@ {
                assert(s[s.len() - 1] == last);
            }
            if exists|i: int| 0 <= i < s.len() && (#[trigger] s[i]).0@ == k {
                let i = choose|i: int| 0 <= i < s.len() && (#[trigger] s[i]).0@ == k;
                if i < p.len() {
                    assert(p[i] == s[i]);
                }
            }
        }
        assert forall|i: int| 0 <= i < s.len() implies #[trigger] entries_map(s)[s[i].0@] == s[i].1@ by {
            if i < p.len() {
                assert(p[i] == s[i]);
                assert(s[i] != s[s.len() - 1]);
                assert(s[i].0@ != last.0@);
            }
        }
        assert(!entries_map(p).contains_key(last.0@)) by {
            if entries_map(p).contains_key(last.0@) {
                let i = choose|i: int| 0 <= i < p.len() && (#[trigger] p[i]).0@ == last.0@;
                assert(p[i] == s[i]);
                assert(s[s.len() - 1] == last);
            }
        }
    }
}

/// The answers received so far, by the title searched for.
pub struct MediaCache {
    entries: Vec<(String, Vec<Medum>)>,
}

impl View for MediaCache {
    type V = Map<Seq<char>, Seq<Medum>>;

    closed spec fn view(&self) -> Map<Seq<char>, Seq<Medum>> {
        entries_map(self.entries@)
    }
}

impl MediaCache {
    #[verifier::type_invariant]
    closed spec fn well_formed(self) -> bool {
        titles_unique(self.entries@)
    }

    /// The empty cache.
    pub fn new() -> (r: Self)
        ensures
            r@ == Map::<Seq<char>, Seq<Medum>>::empty(),
    {
        MediaCache { entries: Vec::new() }
    }

    /// The number of titles in the cache.
    pub fn len(&self) -> (r: usize)
        ensures
            self@.dom().finite(),
            r == self@.dom().len(),
    {
        proof {
            use_type_invariant(self);
            lemma_entries_map(self.entries@);
        }
        self.entries.len()
    }

    fn position(&self, name: &str) -> (r: Option<usize>)
        ensures
            r matches Some(i) ==> i < self.entries@.len() && self.entries@[i as int].0@ == name@,
            r is None ==> forall|i: int| 0 <= i < self.entries@.len() ==> (#[trigger] self.entries@[i]).0@ != name@,
    {
        let mut i: usize = 0;
        while i < self.entries.len()
            invariant
                i <= self.entries@.len(),
                forall|j: int| 0 <= j < i ==> (#[trigger] self.entries@[j]).0@ != name@,
            decreases self.entries@.len() - i,
        {
            if str_equals(self.entries[i].0.as_str(), name) {
                return Some(i);
            }
            i = i + 1;
        }
        None
    }

    /// The media stored for `name`, if any.
    pub fn get(&self, name: &str) -> (r: Option<&Vec<Medum>>)
        ensures
            r is Some <==> self@.contains_key(name@),
            r matches Some(v) ==> v@ == self@[name@],
    {
        proof {
            use_type_invariant(self);
            lemma_entries_map(self.entries@);
        }
        match self.position(name) {
            Some(i) => Some(&self.entries[i].1),
            None => None,
        }
    }

    /// Stores `media` for `name`, replacing what was stored for it.
    pub fn insert(&mut self, name: String, media: Vec<Medum>)
        ensures
            final(self)@ == old(self)@.insert(name@, media@),
    {
        proof {
            use_type_invariant(&*self);
            lemma_entries_map(self.entries@);
        }
        let ghost before = self.entries@;
        let ghost key = name@;
        let ghost value = media@;
        let pos = self.position(name.as_str());
        let mut entries: Vec<(String, Vec<Medum>)> = Vec::new();
        std::mem::swap(&mut entries, &mut self.entries);
        match pos {
            Some(i) => {
                entries.set(i, (name, media));
            },
            None => {
                entries.push((name, media));
            },
        }
        let ghost after = entries@;
        proof {
            assert forall|a: int, b: int| 0 <= a < b < after.len() implies (#[trigger] after[a]).0@ != (
            #[trigger] after[b]).0@ by {
                if pos is Some {
                    let i = pos->0 as int;
                    if a != i && b != i {
                        assert(after[a] == before[a] && after[b] == before[b]);
                    } else if a == i {
                        assert(after[b] == before[b]);
                    } else {
                        assert(after[a] == before[a]);
                    }
                } else {
                    if b < before.len() {
                        assert(after[a] == before[a] && after[b] == before[b]);
                    } else {
                        assert(after[a] == before[a]);
                    }
                }
            }
            lemma_entries_map(after);
            let m = entries_map(after);
            let expect = entries_map(before).insert(key, value);
            assert forall|k: Seq<char>| m.contains_key(k) <==> expect.contains_key(k) by {
                if m.contains_key(k) {
                    let j = choose|j: int| 0 <= j < after.len() && (#[trigger] after[j]).0@ == k;
                    if k != key {
                        assert(after[j] == before[j]);
                        assert(entries_map(before).contains_key(k));
                    }
                }
                if expect.contains_key(k) && k != key {
                    let j = choose|j: int| 0 <= j < before.len() && (#[trigger] before[j]).0@ == k;
                    if pos is Some {
                        assert(j != pos->0 as int);
                    }
                    assert(after[j] == before[j]);
                }
                if k == key {
                    if pos is Some {
                        assert(after[pos->0 as int].0@ == key);
                    } else {
                        assert(after[after.len() - 1].0@ == key);
                    }
                }
            }
            assert forall|k: Seq<char>| #[trigger] m.contains_key(k) implies m[k] == expect[k] by {
                let j = choose|j: int| 0 <= j < after.len() && (#[trigger] after[j]).0@ == k;
                if k != key {
                    assert(after[j] == before[j]);
                }
            }
            assert(m =~= expect);
        }
        self.entries = entries;
    }

    /// Builds a cache from a list of entries; a later entry for a title
    /// replaces an earlier one.
    pub fn from_entries(entries: Vec<(String, Vec<Medum>)>) -> (r: Self)
        ensures
            r@ == entries_map(entries@),
    {
        let mut cache = MediaCache::new();
        let ghost all = entries@;
        let mut rest = entries;
        let mut i: usize = 0;
        let n = rest.len();
        while i < n
            invariant
                n == all.len(),
                rest@ == all.skip(i as int),
                i <= n,
                cache@ == entries_map(all.take(i as int)),
            decreases n - i,
        {
            let (name, media) = rest.remove(0);
            proof {
                assert(all.take(i + 1).drop_last() =~= all.take(i as int));
                assert(all.take(i + 1).last() == all[i as int]);
                assert(rest@ =~= all.skip(i + 1));
            }
            cache.insert(name, media);
            i = i + 1;
        }
        assert(all.take(n as int) =~= all);
        cache
    }

    /// The entries of the cache, one per title.
    pub fn entries(&self) -> (r: &[(String, Vec<Medum>)])
        ensures
            titles_unique(r@),
            entries_map(r@) == self@,
    {
        proof {
            use_type_invariant(self);
        }
        self.entries.as_slice()
    }

    /// The entries of the cache, one per title.
    pub fn into_entries(self) -> (r: Vec<(String, Vec<Medum>)>)
        ensures
            titles_unique(r@),
            entries_map(r@) == self@,
    {
        proof {
            use_type_invariant(&self);
        }
        self.entries
    }
}

} // verus!

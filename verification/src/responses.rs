//! The parts of AniList's search answer that the library reads, and the choice
//! of the medium that a title stands for.
use vstd::prelude::*;

use crate::text::str_equals;

verus! {

/// The publication format of a medium.
#[derive(Debug, Clone, Copy, PartialEq, Eq, Default)]
pub enum Format {
    Manga,
    Novel,
    Anime,
    OneShot,
    #[default]
    Unknown,
}

/// The format that a format name stands for; only three names are known.
pub open spec fn format_named(s: Seq<char>) -> Option<Format> {
    if s == "MANGA"@ {
        Some(Format::Manga)
    } else if s == "NOVEL"@ {
        Some(Format::Novel)
    } else if s == "Anime"@ {
        Some(Format::Anime)
    } else {
        None
    }
}

impl Format {
    /// Reads a format from its name: `"MANGA"`, `"NOVEL"` or `"Anime"`.
    /// Any other name gives `None`.
    pub fn parse(s: &str) -> (r: Option<Format>)
        ensures
            r == format_named(s@),
    {
        if str_equals(s, "MANGA") {
            Some(Format::Manga)
        } else if str_equals(s, "NOVEL") {
            Some(Format::Novel)
        } else if str_equals(s, "Anime") {
            Some(Format::Anime)
        } else {
            None
        }
    }
}

/// The titles a medium is known by.
#[derive(Debug, Clone, PartialEq, Eq, Default)]
pub struct Title {
    pub english: Option<String>,
    pub native: Option<String>,
    pub romaji: Option<String>,
    pub user_preferred: String,
}

/// One medium of a search answer.
///
/// `media_list_entry` holds the JSON text of the entry that AniList sends.
#[derive(Debug, Clone, PartialEq, Eq, Default)]
pub struct Medum {
    pub format: Format,
    pub id: u64,
    pub is_licensed: bool,
    pub media_list_entry: String,
    pub synonyms: Vec<String>,
    pub title: Title,
}

/// A page of search results.
#[derive(Debug, Clone, PartialEq, Eq, Default)]
pub struct Page {
    pub media: Vec<Medum>,
}

/// The `data` member of a search answer.
#[derive(Debug, Clone, PartialEq, Eq, Default)]
pub struct Data {
    pub page: Page,
}

/// A whole search answer.
#[derive(Debug, Clone, PartialEq, Eq, Default)]
pub struct Root {
    pub data: Data,
}

/// Whether an optional title is present and equal to `name`.
pub open spec fn optional_title_is(t: Option<String>, name: Seq<char>) -> bool {
    t matches Some(v) && v@ == name
}

/// Whether one of the titles equals `name`.
pub open spec fn title_matches(name: Seq<char>, t: Title) -> bool {
    ||| optional_title_is(t.romaji, name)
    ||| optional_title_is(t.english, name)
    ||| optional_title_is(t.native, name)
    ||| t.user_preferred@ == name
}

/// Whether a medium is a manga known under `name`.
pub open spec fn is_candidate(name: Seq<char>, m: Medum) -> bool {
    m.format == Format::Manga && title_matches(name, m.title)
}

/// The id of the first manga in `media` known under `name`.
pub open spec fn first_match(name: Seq<char>, media: Seq<Medum>) -> Option<u64>
    decreases media.len(),
{
    if media.len() == 0 {
        None
    } else if is_candidate(name, media[0]) {
        Some(media[0].id)
    } else {
        first_match(name, media.drop_first())
    }
}

/// `first_match` gives the id of the first candidate, and `None` exactly when
/// there is no candidate.
pub proof fn lemma_first_match(name: Seq<char>, media: Seq<Medum>)
    ensures
        first_match(name, media) is None <==> forall|i: int|
            0 <= i < media.len() ==> !is_candidate(name, #[trigger] media[i]),
        first_match(name, media) matches Some(id) ==> exists|i: int|
            0 <= i < media.len() && is_candidate(name, #[trigger] media[i]) && media[i].id == id
                && forall|j: int| 0 <= j < i ==> !is_candidate(name, #[trigger] media[j]),
    decreases media.len(),
{
    if media.len() > 0 {
        let rest = media.drop_first();
        lemma_first_match(name, rest);
        if is_candidate(name, media[0]) {
        } else {
            assert forall|i: int| 0 <= i < rest.len() implies rest[i] == media[i + 1] by {}
            if first_match(name, rest) is None {
                assert forall|i: int| 0 <= i < media.len() implies !is_candidate(
                    name,
                    #[trigger] media[i],
                ) by {
                    if i > 0 {
                        assert(media[i] == rest[i - 1]);
                    }
                }
            } else {
                let id = first_match(name, rest)->0;
                let k = choose|i: int|
                    0 <= i < rest.len() && is_candidate(name, #[trigger] rest[i]) && rest[i].id == id
                        && forall|j: int| 0 <= j < i ==> !is_candidate(name, #[trigger] rest[j]);
                assert(media[k + 1] == rest[k]);
                assert forall|j: int| 0 <= j < k + 1 implies !is_candidate(name, #[trigger] media[j]) by {
                    if j > 0 {
                        assert(media[j] == rest[j - 1]);
                    }
                }
                assert(exists|i: int| 0 <= i < media.len() && is_candidate(name, #[trigger] media[i]));
            }
        }
    }
}

/// Searching a list made of two parts finds the first part's match if it has
/// one, and the second part's otherwise.
pub proof fn law_find_id_concat(name: Seq<char>, a: Seq<Medum>, b: Seq<Medum>)
    ensures
        first_match(name, a + b) == (match first_match(name, a) {
            Some(id) => Some(id),
            None => first_match(name, b),
        }),
    decreases a.len(),
{
    if a.len() == 0 {
        assert(a + b =~= b);
    } else {
        assert((a + b)[0] == a[0]);
        assert((a + b).drop_first() =~= a.drop_first() + b);
        law_find_id_concat(name, a.drop_first(), b);
    }
}

/// The id found for `name` is that of a manga whose romaji, English, native
/// or preferred title is `name`, and no manga before it has such a title;
/// nothing is found exactly when no manga has such a title. Synonyms, the
/// licence flag and the list entry play no part.
pub proof fn law_find_id_reads_titles(name: Seq<char>, media: Seq<Medum>)
    ensures
        first_match(name, media) matches Some(id) ==> exists|i: int|
            0 <= i < media.len() && media[i].id == id && media[i].format == Format::Manga && (
            (media[i].title.romaji matches Some(t) && t@ == name) || (media[i].title.english matches Some(t)
                && t@ == name) || (media[i].title.native matches Some(t) && t@ == name)
                || media[i].title.user_preferred@ == name) && forall|j: int|
                0 <= j < i ==> !(#[trigger] media[j].format == Format::Manga && (
                (media[j].title.romaji matches Some(t) && t@ == name) || (media[j].title.english matches Some(t)
                    && t@ == name) || (media[j].title.native matches Some(t) && t@ == name)
                    || media[j].title.user_preferred@ == name)),
        first_match(name, media) is None <==> forall|i: int|
            0 <= i < media.len() ==> !(#[trigger] media[i].format == Format::Manga && (
            (media[i].title.romaji matches Some(t) && t@ == name) || (media[i].title.english matches Some(t)
                && t@ == name) || (media[i].title.native matches Some(t) && t@ == name)
                || media[i].title.user_preferred@ == name)),
{
    lemma_first_match(name, media);
}

/// Changing anything of the media but their format, id and titles (their
/// synonyms, for one) does not change the id found.
pub proof fn law_find_id_ignores_synonyms(name: Seq<char>, media: Seq<Medum>, other: Seq<Medum>)
    requires
        other.len() == media.len(),
        forall|i: int| 0 <= i < media.len() ==> (#[trigger] other[i]).format == media[i].format
            && other[i].id == media[i].id && other[i].title == media[i].title,
    ensures
        first_match(name, other) == first_match(name, media),
    decreases media.len(),
{
    if media.len() > 0 {
        let m = media.drop_first();
        let o = other.drop_first();
        assert(other[0].format == media[0].format && other[0].title == media[0].title);
        assert forall|i: int| 0 <= i < m.len() implies (#[trigger] o[i]).format == m[i].format
            && o[i].id == m[i].id && o[i].title == m[i].title by {
            assert(o[i] == other[i + 1] && m[i] == media[i + 1]);
        }
        law_find_id_ignores_synonyms(name, m, o);
    }
}

fn optional_title_matches(t: &Option<String>, name: &str) -> (r: bool)
    ensures
        r == optional_title_is(*t, name@),
{
    match t {
        Some(v) => str_equals(v.as_str(), name),
        None => false,
    }
}

/// The id of the first manga among `media` that is known under `name`, as
/// its romaji, English, native or preferred title; `None` if there is none.
pub fn find_id(name: &str, media: &[Medum]) -> (r: Option<u64>)
    ensures
        r == first_match(name@, media@),
        r is None <==> forall|i: int| 0 <= i < media@.len() ==> !is_candidate(name@, #[trigger] media@[i]),
        r matches Some(id) ==> exists|i: int|
            0 <= i < media@.len() && is_candidate(name@, #[trigger] media@[i]) && media@[i].id == id,
{
    proof {
        lemma_first_match(name@, media@);
    }
    let mut i: usize = 0;
    assert(media@.skip(0) =~= media@);
    while i < media.len()
        invariant
            i <= media@.len(),
            first_match(name@, media@) == first_match(name@, media@.skip(i as int)),
        decreases media@.len() - i,
    {
        let m = &media[i];
        assert(media@.skip(i as int)[0] == media@[i as int]);
        assert(media@.skip(i as int).drop_first() =~= media@.skip(i + 1));
        let is_manga = match m.format {
            Format::Manga => true,
            _ => false,
        };
        if is_manga {
            let t = &m.title;
            if optional_title_matches(&t.romaji, name) || optional_title_matches(&t.english, name)
                || optional_title_matches(&t.native, name) || str_equals(t.user_preferred.as_str(), name) {
                return Some(m.id);
            }
        }
        i = i + 1;
    }
    None
}

} // verus!

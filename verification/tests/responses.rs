use tachiyomi_backup_to_anilist::responses::{find_id, Format, Medum, Title};

fn medium(id: u64, format: Format, romaji: Option<&str>, english: Option<&str>, native: Option<&str>, preferred: &str) -> Medum {
    Medum {
        format,
        id,
        is_licensed: false,
        media_list_entry: "null".to_string(),
        synonyms: vec![],
        title: Title {
            english: english.map(|s| s.to_string()),
            native: native.map(|s| s.to_string()),
            romaji: romaji.map(|s| s.to_string()),
            user_preferred: preferred.to_string(),
        },
    }
}

#[test]
fn format_names() {
    assert_eq!(Format::parse("MANGA"), Some(Format::Manga));
    assert_eq!(Format::parse("NOVEL"), Some(Format::Novel));
    assert_eq!(Format::parse("Anime"), Some(Format::Anime));
    assert_eq!(Format::parse("ANIME"), None);
    assert_eq!(Format::parse("ONE_SHOT"), None);
    assert_eq!(Format::parse(""), None);
    assert_eq!(Format::default(), Format::Unknown);
}

#[test]
fn finds_manga_by_any_title() {
    let media = vec![
        medium(1, Format::Manga, Some("Romaji"), None, None, "Pref1"),
        medium(2, Format::Manga, None, Some("English"), None, "Pref2"),
        medium(3, Format::Manga, None, None, Some("Native"), "Pref3"),
    ];
    assert_eq!(find_id("Romaji", &media), Some(1));
    assert_eq!(find_id("English", &media), Some(2));
    assert_eq!(find_id("Native", &media), Some(3));
    assert_eq!(find_id("Pref3", &media), Some(3));
    assert_eq!(find_id("Other", &media), None);
}

#[test]
fn only_manga_counts() {
    let media = vec![
        medium(10, Format::Novel, Some("Same"), None, None, "Same"),
        medium(11, Format::OneShot, Some("Same"), None, None, "Same"),
        medium(12, Format::Manga, None, None, None, "Same"),
    ];
    assert_eq!(find_id("Same", &media), Some(12));
    assert_eq!(find_id("Same", &media[..2]), None);
}

#[test]
fn first_match_wins() {
    let media = vec![
        medium(5, Format::Manga, None, Some("T"), None, "x"),
        medium(6, Format::Manga, Some("T"), None, None, "y"),
    ];
    assert_eq!(find_id("T", &media), Some(5));
}

#[test]
fn no_media_no_id() {
    assert_eq!(find_id("anything", &[]), None);
}

#[test]
fn title_must_match_exactly() {
    let media = vec![medium(7, Format::Manga, Some("Title"), None, None, "Title ")];
    assert_eq!(find_id("title", &media), None);
    assert_eq!(find_id("Title ", &media), Some(7));
}

#[test]
fn search_of_joined_lists() {
    let a = vec![medium(1, Format::Novel, Some("T"), None, None, "T")];
    let b = vec![medium(2, Format::Manga, Some("T"), None, None, "T")];
    let joined: Vec<Medum> = a.iter().chain(b.iter()).cloned().collect();
    assert_eq!(find_id("T", &a), None);
    assert_eq!(find_id("T", &joined), find_id("T", &b));
}

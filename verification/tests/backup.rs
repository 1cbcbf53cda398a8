use tachiyomi_backup_to_anilist::asdf;
use tachiyomi_backup_to_anilist::library::{dropped_characters, partition_found, split_by_tracking};
use tachiyomi_backup_to_anilist::tachiyomi_backup::{Backup, BackupManga, BackupTracking, UpdateStrategy};

#[test]
fn asdf_is_empty() {
    let b = asdf();
    assert!(b.backup_manga.is_empty());
    assert!(b.backup_categories.is_empty());
    assert!(b.backup_sources.is_empty());
    assert!(b.backup_preferences.is_empty());
    assert!(b.backup_source_preferences.is_empty());
    assert_eq!(b, Backup::default());
}

#[test]
fn strategy_names() {
    assert_eq!(UpdateStrategy::AlwaysUpdate.as_str_name(), "ALWAYS_UPDATE");
    assert_eq!(UpdateStrategy::OnlyFetchOnce.as_str_name(), "ONLY_FETCH_ONCE");
    assert_eq!(UpdateStrategy::from_str_name("ALWAYS_UPDATE"), Some(UpdateStrategy::AlwaysUpdate));
    assert_eq!(UpdateStrategy::from_str_name("ONLY_FETCH_ONCE"), Some(UpdateStrategy::OnlyFetchOnce));
    assert_eq!(UpdateStrategy::from_str_name("always_update"), None);
    assert_eq!(UpdateStrategy::from_str_name(""), None);
}

#[test]
fn strategy_name_roundtrip() {
    for u in [UpdateStrategy::AlwaysUpdate, UpdateStrategy::OnlyFetchOnce] {
        assert_eq!(UpdateStrategy::from_str_name(u.as_str_name()), Some(u));
        assert_eq!(UpdateStrategy::from_number(u.number()), Some(u));
    }
    assert_eq!(UpdateStrategy::AlwaysUpdate.number(), 0);
    assert_eq!(UpdateStrategy::OnlyFetchOnce.number(), 1);
    assert_eq!(UpdateStrategy::from_number(2), None);
}

#[test]
fn manga_getters_fall_back_to_defaults() {
    let mut m = BackupManga::default();
    assert_eq!(m.title(), "");
    assert_eq!(m.update_strategy(), UpdateStrategy::AlwaysUpdate);
    m.title = Some("Berserk".to_string());
    m.update_strategy = Some(1);
    assert_eq!(m.title(), "Berserk");
    assert_eq!(m.update_strategy(), UpdateStrategy::OnlyFetchOnce);
    m.update_strategy = Some(7);
    assert_eq!(m.update_strategy(), UpdateStrategy::AlwaysUpdate);
}

fn manga(title: &str, followed: bool) -> BackupManga {
    let mut m = BackupManga::default();
    m.title = Some(title.to_string());
    if followed {
        m.tracking.push(BackupTracking::default());
    }
    m
}

#[test]
fn split_keeps_order() {
    let mangas = vec![manga("a", false), manga("b", true), manga("c", false), manga("d", true)];
    let (untracked, followed) = split_by_tracking(&mangas);
    assert_eq!(untracked, vec![0, 2]);
    assert_eq!(followed, vec![1, 3]);
    let (u, f) = split_by_tracking(&[]);
    assert!(u.is_empty() && f.is_empty());
}

#[test]
fn dropped_characters_are_sorted_and_unique() {
    let mangas = vec![
        manga("x\u{2026}\u{2026}y", false),
        manga("Caf\u{e9}", true),
        manga("\u{4e00}\u{2026}", false),
        BackupManga::default(),
    ];
    assert_eq!(dropped_characters(&mangas), vec!['\u{2026}', '\u{4e00}']);
    assert!(dropped_characters(&[manga("plain", false)]).is_empty());
}

#[test]
fn partition_by_search_result() {
    let (missing, found) = partition_found(&[None, Some(4), Some(9), None]);
    assert_eq!(missing, vec![0, 3]);
    assert_eq!(found, vec![(1, 4), (2, 9)]);
}

use tachiyomi_backup_to_anilist::float_bits::F32Bits;
use tachiyomi_backup_to_anilist::tachiyomi_backup::BackupChapter;

fn f(x: f32) -> F32Bits {
    F32Bits { bits: x.to_bits() }
}

#[test]
fn floats_compare_as_f32_does() {
    assert_eq!(f(0.0), f(-0.0));
    assert_ne!(f(f32::NAN), f(f32::NAN));
    assert_eq!(f(1.5), f(1.5));
    assert_ne!(f(1.5), f(2.5));
    assert_eq!(f(f32::INFINITY), f(f32::INFINITY));
    for (x, y) in [(0.0f32, -0.0f32), (f32::NAN, f32::NAN), (1.0, 1.0), (1.0, -1.0), (f32::INFINITY, f32::NEG_INFINITY)] {
        assert_eq!(f(x) == f(y), x == y);
    }
    let mut chapter = BackupChapter::default();
    chapter.chapter_number = Some(f(f32::NAN));
    assert_ne!(chapter, chapter.clone());
    chapter.chapter_number = Some(f(-0.0));
    let mut other = chapter.clone();
    other.chapter_number = Some(f(0.0));
    assert_eq!(chapter, other);
}

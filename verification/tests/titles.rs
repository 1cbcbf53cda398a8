use tachiyomi_backup_to_anilist::titles::remove_accents;

#[test]
fn accented_title_maps_to_plain_letters() {
    let input = "\"K\u{14d}ryakuhon\" o Kushi Suru Saiky\u{14d} no Mah\u{14d}tsukai ~<Meirei sa Sero> to wa Iwa Senai Oreryu\u{304} Ma\u{14d} T\u{14d}batsu Saizen R\u{16b}to ~";
    let (s, flag, removed) = remove_accents(input.to_string());
    assert_eq!(
        s,
        "\"Koryakuhon\" o Kushi Suru Saikyo no Mahotsukai ~<Meirei sa Sero> to wa Iwa Senai Oreryu Mao Tobatsu Saizen Ruto ~"
    );
    assert!(flag);
    assert_eq!(removed, vec!['\u{304}']);
}

#[test]
fn ellipsis_is_dropped() {
    let (s, flag, removed) =
        remove_accents("29-sai Dokushin wa Isekai de Jiyuu ni Ikita\u{2026}\u{2026}katta".to_string());
    assert_eq!(s, "29-sai Dokushin wa Isekai de Jiyuu ni Ikitakatta");
    assert!(flag);
    assert_eq!(removed, vec!['\u{2026}', '\u{2026}']);
}

#[test]
fn every_mapped_letter() {
    let (s, flag, removed) = remove_accents("\u{e9}\u{c9}\u{f6}\u{14d}\u{16b}".to_string());
    assert_eq!(s, "eeoou");
    assert!(flag);
    assert!(removed.is_empty());
}

#[test]
fn ascii_title_is_untouched() {
    let title = "When you're crossdressing, what do you do about your underwear?";
    let (s, flag, removed) = remove_accents(title.to_string());
    assert_eq!(s, title);
    assert!(!flag);
    assert!(removed.is_empty());
}

#[test]
fn empty_title() {
    let (s, flag, removed) = remove_accents(String::new());
    assert_eq!(s, "");
    assert!(!flag);
    assert!(removed.is_empty());
}

#[test]
fn removing_accents_twice_changes_nothing() {
    let (once, _, _) = remove_accents("Caf\u{e9} \u{300c}Sh\u{14d}nen\u{300d} \u{fc}ber".to_string());
    assert_eq!(once, "Cafe Shonen ber");
    let (twice, flag, removed) = remove_accents(once.clone());
    assert_eq!(twice, once);
    assert!(!flag);
    assert!(removed.is_empty());
}

#[test]
fn kept_and_dropped_account_for_every_character() {
    let input = "a\u{e9}\u{4e00}b\u{fc}";
    let (s, flag, removed) = remove_accents(input.to_string());
    assert_eq!(s, "aeb");
    assert!(flag);
    assert_eq!(removed, vec!['\u{4e00}', '\u{fc}']);
    assert_eq!(s.chars().count() + removed.len(), input.chars().count());
    assert!(s.is_ascii());
}

#[test]
fn joined_titles_normalise_part_by_part() {
    let (a, fa, ra) = remove_accents("Mah\u{14d}".to_string());
    let (b, fb, rb) = remove_accents("tsukai\u{2026}".to_string());
    let (ab, fab, rab) = remove_accents("Mah\u{14d}tsukai\u{2026}".to_string());
    assert_eq!(ab, a + &b);
    assert_eq!(fab, fa || fb);
    assert_eq!(rab, [ra, rb].concat());
}

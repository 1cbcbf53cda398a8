use tachiyomi_backup_to_anilist::cache::MediaCache;
use tachiyomi_backup_to_anilist::query::{
    accept_answer, lookup, pause_after, quota_is_low, recover, remaining_quota, Failure, Lookup, Recovery,
};
use tachiyomi_backup_to_anilist::responses::{Format, Medum, Title};

fn manga(id: u64, title: &str) -> Medum {
    Medum {
        format: Format::Manga,
        id,
        is_licensed: true,
        media_list_entry: "null".to_string(),
        synonyms: vec![],
        title: Title { english: None, native: None, romaji: Some(title.to_string()), user_preferred: title.to_string() },
    }
}

#[test]
fn cache_reads_back_what_was_written() {
    let mut cache = MediaCache::new();
    assert_eq!(cache.len(), 0);
    assert!(cache.get("a").is_none());
    cache.insert("a".to_string(), vec![manga(1, "a")]);
    cache.insert("b".to_string(), vec![]);
    assert_eq!(cache.len(), 2);
    assert_eq!(cache.get("a").unwrap()[0].id, 1);
    assert!(cache.get("b").unwrap().is_empty());
    cache.insert("a".to_string(), vec![manga(2, "a")]);
    assert_eq!(cache.len(), 2);
    assert_eq!(cache.get("a").unwrap()[0].id, 2);
}

#[test]
fn cache_from_and_into_entries() {
    let cache = MediaCache::from_entries(vec![
        ("x".to_string(), vec![manga(1, "x")]),
        ("y".to_string(), vec![]),
        ("x".to_string(), vec![manga(3, "x")]),
    ]);
    assert_eq!(cache.len(), 2);
    assert_eq!(cache.get("x").unwrap()[0].id, 3);
    let mut entries = cache.into_entries();
    entries.sort_by(|a, b| a.0.cmp(&b.0));
    assert_eq!(entries.len(), 2);
    assert_eq!(entries[0].0, "x");
    assert_eq!(entries[1].0, "y");
}

#[test]
fn lookup_after_answer() {
    let mut cache = MediaCache::new();
    assert_eq!(lookup(&cache, "Title"), Lookup::Missing);
    let found = accept_answer(&mut cache, "Title".to_string(), vec![manga(8, "Other"), manga(9, "Title")]);
    assert_eq!(found, Some(9));
    assert_eq!(lookup(&cache, "Title"), Lookup::Cached(Some(9)));
    assert_eq!(lookup(&cache, "Other"), Lookup::Missing);
    let none = accept_answer(&mut cache, "Nothing".to_string(), vec![manga(1, "Else")]);
    assert_eq!(none, None);
    assert_eq!(lookup(&cache, "Nothing"), Lookup::Cached(None));
}

#[test]
fn rate_limited_waits_as_told() {
    let f = Failure::Status { code: 429, retry_after: Some("17".to_string()) };
    assert_eq!(recover(&f, None), Recovery::WaitThenRetry { seconds: 17, attempt: 0 });
    assert_eq!(recover(&f, Some(9)), Recovery::WaitThenRetry { seconds: 17, attempt: 9 });
    let missing = Failure::Status { code: 429, retry_after: None };
    assert_eq!(recover(&missing, None), Recovery::Abort);
    let bad = Failure::Status { code: 429, retry_after: Some("soon".to_string()) };
    assert_eq!(recover(&bad, None), Recovery::Abort);
}

#[test]
fn server_error_paces_and_retries() {
    let f = Failure::Status { code: 500, retry_after: None };
    assert_eq!(recover(&f, None), Recovery::PaceThenRetry { attempt: 0 });
    assert_eq!(recover(&f, Some(5)), Recovery::PaceThenRetry { attempt: 5 });
    assert_eq!(recover(&f, Some(6)), Recovery::PaceThenGiveUp);
}

#[test]
fn other_failures_stop_until_retries_run_out() {
    let f = Failure::Status { code: 404, retry_after: None };
    assert_eq!(recover(&f, None), Recovery::Abort);
    assert_eq!(recover(&f, Some(5)), Recovery::Abort);
    assert_eq!(recover(&f, Some(6)), Recovery::GiveUp);
    assert_eq!(recover(&Failure::Transport, Some(3)), Recovery::Abort);
    assert_eq!(recover(&Failure::Transport, Some(200)), Recovery::GiveUp);
}

#[test]
fn quota_header() {
    assert_eq!(remaining_quota(Some("89")), 89);
    assert_eq!(remaining_quota(Some("+5")), 5);
    assert_eq!(remaining_quota(Some("")), 0);
    assert_eq!(remaining_quota(Some("-1")), 0);
    assert_eq!(remaining_quota(Some("4294967296")), 0);
    assert_eq!(remaining_quota(Some("4294967295")), u32::MAX);
    assert_eq!(remaining_quota(None), 0);
    assert!(quota_is_low(29));
    assert!(!quota_is_low(30));
}

#[test]
fn pause_fills_up_the_interval() {
    assert_eq!(pause_after(2, 0, 250_000_000), (1, 750_000_000));
    assert_eq!(pause_after(2, 1, 0), (1, 0));
    assert_eq!(pause_after(2, 2, 0), (0, 0));
    assert_eq!(pause_after(2, 2, 1), (0, 0));
    assert_eq!(pause_after(2, 7, 0), (0, 0));
    let total = std::time::Duration::from_secs(2);
    let elapsed = std::time::Duration::new(0, 123_456_789);
    let left = total.saturating_sub(elapsed);
    assert_eq!(pause_after(2, 0, 123_456_789), (left.as_secs(), left.subsec_nanos()));
}

use tachiyomi_backup_to_anilist::query::{Search, SearchEvent, SearchStep};

#[test]
fn search_steps_send_once_then_answer_from_cache() {
    let mut cache = MediaCache::new();
    let mut search = Search::new("Title".to_string(), None);
    assert_eq!(search.step(&mut cache, SearchEvent::Begin), SearchStep::Send);
    assert_eq!(
        search.step(&mut cache, SearchEvent::Answered(vec![manga(3, "Title")])),
        SearchStep::PaceThenFinish(Some(3))
    );
    let mut again = Search::new("Title".to_string(), None);
    assert_eq!(again.step(&mut cache, SearchEvent::Begin), SearchStep::Finish(Some(3)));
    assert_eq!(cache.len(), 1);
}

#[test]
fn search_steps_after_failures() {
    let mut cache = MediaCache::new();
    let mut search = Search::new("T".to_string(), None);
    let limited = Failure::Status { code: 429, retry_after: Some("3".to_string()) };
    assert_eq!(search.step(&mut cache, SearchEvent::Failed(limited)), SearchStep::WaitThenBegin { seconds: 3 });
    assert_eq!(search.attempt, Some(0));
    let server = Failure::Status { code: 500, retry_after: None };
    assert_eq!(search.step(&mut cache, SearchEvent::Failed(server.clone())), SearchStep::PaceThenBegin);
    assert_eq!(search.attempt, Some(0));
    let mut tired = Search::new("T".to_string(), Some(6));
    assert_eq!(tired.step(&mut cache, SearchEvent::Failed(server)), SearchStep::PaceThenFinish(None));
    assert_eq!(tired.step(&mut cache, SearchEvent::Failed(Failure::Transport)), SearchStep::Finish(None));
    assert_eq!(search.step(&mut cache, SearchEvent::Failed(Failure::Transport)), SearchStep::Abort);
    assert_eq!(cache.len(), 0);
}

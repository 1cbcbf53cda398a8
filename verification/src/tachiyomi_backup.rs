//! The records of a Tachiyomi backup (`.tachibk`), as its protobuf schema
//! defines them.
//!
//! Fields that the schema declares as `float` hold the IEEE-754 bit pattern of
//! the value (`F32Bits`), compared as `f32` compares.
use vstd::prelude::*;

use crate::float_bits::F32Bits;
use crate::text::str_equals;

verus! {

/// A whole backup.
#[derive(Clone, PartialEq, Debug)]
pub struct Backup {
    pub backup_manga: Vec<BackupManga>,
    pub backup_categories: Vec<BackupCategory>,
    pub backup_sources: Vec<BackupSource>,
    pub backup_preferences: Vec<BackupPreference>,
    pub backup_source_preferences: Vec<BackupSourcePreferences>,
}

impl Default for Backup {
    /// The empty backup: every list is empty.
    fn default() -> (r: Self)
        ensures
            r.backup_manga@.len() == 0,
            r.backup_categories@.len() == 0,
            r.backup_sources@.len() == 0,
            r.backup_preferences@.len() == 0,
            r.backup_source_preferences@.len() == 0,
    {
        Backup {
            backup_manga: Vec::new(),
            backup_categories: Vec::new(),
            backup_sources: Vec::new(),
            backup_preferences: Vec::new(),
            backup_source_preferences: Vec::new(),
        }
    }
}

/// One manga of the library.
#[derive(Clone, PartialEq, Debug, Default)]
pub struct BackupManga {
    pub source: i64,
    pub url: String,
    pub title: Option<String>,
    pub artist: Option<String>,
    pub author: Option<String>,
    pub description: Option<String>,
    pub genre: Vec<String>,
    pub status: Option<i32>,
    pub thumbnail_url: Option<String>,
    pub date_added: Option<i64>,
    pub viewer: Option<i32>,
    pub chapters: Vec<BackupChapter>,
    pub categories: Vec<i64>,
    pub tracking: Vec<BackupTracking>,
    pub favorite: Option<bool>,
    pub chapter_flags: Option<i32>,
    pub viewer_flags: Option<i32>,
    pub history: Vec<BackupHistory>,
    pub update_strategy: Option<i32>,
    pub last_modified_at: Option<i64>,
    pub favorite_modified_at: Option<i64>,
}

/// The title of a manga as the backup's getter gives it: the empty text when
/// the field is missing.
pub open spec fn title_text(m: BackupManga) -> Seq<char> {
    match m.title {
        Some(t) => t@,
        None => Seq::empty(),
    }
}

/// The update strategy that a stored number stands for, where it stands for one.
pub open spec fn strategy_of_number(v: i32) -> Option<UpdateStrategy> {
    if v == 0 {
        Some(UpdateStrategy::AlwaysUpdate)
    } else if v == 1 {
        Some(UpdateStrategy::OnlyFetchOnce)
    } else {
        None
    }
}

impl BackupManga {
    /// The manga's title, or the empty text when the backup holds none.
    pub fn title(&self) -> (r: &str)
        ensures
            r@ == title_text(*self),
    {
        match &self.title {
            Some(t) => t.as_str(),
            None => {
                proof {
                    reveal_strlit("");
                }
                ""
            },
        }
    }

    /// The manga's update strategy; a missing or unknown number stands for
    /// `AlwaysUpdate`, the schema's default.
    pub fn update_strategy(&self) -> (r: UpdateStrategy)
        ensures
            r == (match self.update_strategy {
                Some(v) => match strategy_of_number(v) {
                    Some(s) => s,
                    None => UpdateStrategy::AlwaysUpdate,
                },
                None => UpdateStrategy::AlwaysUpdate,
            }),
    {
        match self.update_strategy {
            Some(v) => match UpdateStrategy::from_number(v) {
                Some(s) => s,
                None => UpdateStrategy::AlwaysUpdate,
            },
            None => UpdateStrategy::AlwaysUpdate,
        }
    }
}

/// A category of the library.
#[derive(Clone, PartialEq, Eq, Debug, Default)]
pub struct BackupCategory {
    pub name: String,
    pub order: Option<i64>,
    pub flags: Option<i64>,
}

/// A source that mangas come from.
#[derive(Clone, PartialEq, Eq, Debug, Default)]
pub struct BackupSource {
    pub name: Option<String>,
    pub source_id: i64,
}

/// One stored preference.
#[derive(Clone, PartialEq, Eq, Debug, Default)]
pub struct BackupPreference {
    pub key: String,
    pub value: PreferenceValue,
}

/// The preferences of one source.
#[derive(Clone, PartialEq, Eq, Debug, Default)]
pub struct BackupSourcePreferences {
    pub source_key: String,
    pub prefs: Vec<BackupPreference>,
}

/// One chapter of a manga.
#[derive(Clone, PartialEq, Debug, Default)]
pub struct BackupChapter {
    pub url: String,
    pub name: String,
    pub scanlator: Option<String>,
    pub read: Option<bool>,
    pub bookmark: Option<bool>,
    pub last_page_read: Option<i64>,
    pub date_fetch: Option<i64>,
    pub date_upload: Option<i64>,
    pub chapter_number: Option<F32Bits>,
    pub source_order: Option<i64>,
    pub last_modified_at: Option<i64>,
}

/// One tracker entry of a manga.
#[derive(Clone, PartialEq, Debug, Default)]
pub struct BackupTracking {
    pub sync_id: i32,
    pub library_id: i64,
    pub media_id_int: Option<i32>,
    pub tracking_url: Option<String>,
    pub title: Option<String>,
    pub last_chapter_read: Option<F32Bits>,
    pub total_chapters: Option<i32>,
    pub score: Option<F32Bits>,
    pub status: Option<i32>,
    pub started_reading_date: Option<i64>,
    pub finished_reading_date: Option<i64>,
    pub media_id: Option<i64>,
}

/// One reading of a chapter.
#[derive(Clone, PartialEq, Eq, Debug, Default)]
pub struct BackupHistory {
    pub url: String,
    pub last_read: i64,
    pub read_duration: Option<i64>,
}

/// A stored preference value: the name of its type and the encoded message
/// of one of the `*PreferenceValue` records below.
#[derive(Clone, PartialEq, Eq, Debug, Default)]
pub struct PreferenceValue {
    pub value_type: String,
    pub value: Vec<u8>,
}

#[derive(Clone, PartialEq, Eq, Debug, Default)]
pub struct BooleanPreferenceValue {
    pub value: bool,
}

#[derive(Clone, PartialEq, Debug, Default)]
pub struct FloatPreferenceValue {
    pub value: F32Bits,
}

#[derive(Clone, PartialEq, Eq, Debug, Default)]
pub struct IntPreferenceValue {
    pub value: i32,
}

#[derive(Clone, PartialEq, Eq, Debug, Default)]
pub struct LongPreferenceValue {
    pub value: i64,
}

#[derive(Clone, PartialEq, Eq, Debug, Default)]
pub struct StringPreferenceValue {
    pub value: String,
}

#[derive(Clone, PartialEq, Eq, Debug, Default)]
pub struct StringSetPreferenceValue {
    pub value: Vec<String>,
}

/// How a manga is updated.
#[derive(Clone, Copy, Debug, PartialEq, Eq, Hash, PartialOrd, Ord)]
pub enum UpdateStrategy {
    AlwaysUpdate,
    OnlyFetchOnce,
}

/// The name of an update strategy in the protobuf schema.
pub open spec fn strategy_name(u: UpdateStrategy) -> Seq<char> {
    match u {
        UpdateStrategy::AlwaysUpdate => "ALWAYS_UPDATE"@,
        UpdateStrategy::OnlyFetchOnce => "ONLY_FETCH_ONCE"@,
    }
}

/// The update strategy that a schema name stands for.
pub open spec fn strategy_named(s: Seq<char>) -> Option<UpdateStrategy> {
    if s == "ALWAYS_UPDATE"@ {
        Some(UpdateStrategy::AlwaysUpdate)
    } else if s == "ONLY_FETCH_ONCE"@ {
        Some(UpdateStrategy::OnlyFetchOnce)
    } else {
        None
    }
}

/// The number that stands for an update strategy in the schema.
pub open spec fn strategy_number(u: UpdateStrategy) -> i32 {
    match u {
        UpdateStrategy::AlwaysUpdate => 0,
        UpdateStrategy::OnlyFetchOnce => 1,
    }
}

impl UpdateStrategy {
    /// String value of the enum field names used in the ProtoBuf definition.
    pub fn as_str_name(&self) -> (r: &'static str)
        ensures
            r@ == strategy_name(*self),
    {
        match self {
            UpdateStrategy::AlwaysUpdate => "ALWAYS_UPDATE",
            UpdateStrategy::OnlyFetchOnce => "ONLY_FETCH_ONCE",
        }
    }

    /// Creates an enum from field names used in the ProtoBuf definition.
    pub fn from_str_name(value: &str) -> (r: Option<Self>)
        ensures
            r == strategy_named(value@),
    {
        if str_equals(value, "ALWAYS_UPDATE") {
            Some(UpdateStrategy::AlwaysUpdate)
        } else if str_equals(value, "ONLY_FETCH_ONCE") {
            Some(UpdateStrategy::OnlyFetchOnce)
        } else {
            None
        }
    }

    /// The number that stands for this strategy in an encoded backup.
    pub fn number(&self) -> (r: i32)
        ensures
            r == strategy_number(*self),
    {
        match self {
            UpdateStrategy::AlwaysUpdate => 0,
            UpdateStrategy::OnlyFetchOnce => 1,
        }
    }

    /// The strategy that an encoded number stands for, if any.
    pub fn from_number(v: i32) -> (r: Option<Self>)
        ensures
            r == strategy_of_number(v),
    {
        if v == 0 {
            Some(UpdateStrategy::AlwaysUpdate)
        } else if v == 1 {
            Some(UpdateStrategy::OnlyFetchOnce)
        } else {
            None
        }
    }
}

/// Reading back the name of a strategy gives the strategy, and a name that is
/// read as a strategy is that strategy's name.
pub proof fn law_strategy_name_roundtrip(u: UpdateStrategy, s: Seq<char>)
    ensures
        strategy_named(strategy_name(u)) == Some(u),
        strategy_named(s) == Some(u) ==> strategy_name(u) == s,
{
    reveal_strlit("ALWAYS_UPDATE");
    reveal_strlit("ONLY_FETCH_ONCE");
    assert("ALWAYS_UPDATE"@.len() != "ONLY_FETCH_ONCE"@.len());
}

/// Reading back the number of a strategy gives the strategy, and a number that
/// is read as a strategy is that strategy's number.
pub proof fn law_strategy_number_roundtrip(u: UpdateStrategy, v: i32)
    ensures
        strategy_of_number(strategy_number(u)) == Some(u),
        strategy_of_number(v) == Some(u) ==> strategy_number(u) == v,
{
}

} // verus!

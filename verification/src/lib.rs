pub mod text;
pub mod titles;
pub mod responses;
pub mod float_bits;
pub mod tachiyomi_backup;
pub mod library;
pub mod cache;
pub mod query;
pub mod anilist;
pub mod archive;

use tachiyomi_backup::Backup;

use vstd::prelude::*;

verus! {

/// An empty backup: every list is empty.
pub fn asdf() -> (r: Backup)
    ensures
        r.backup_manga@.len() == 0,
        r.backup_categories@.len() == 0,
        r.backup_sources@.len() == 0,
        r.backup_preferences@.len() == 0,
        r.backup_source_preferences@.len() == 0,
{
    Backup::default()
}

} // verus!

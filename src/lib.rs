//! Resolution of application file paths after the XDG Base Directory
//! layout: a user-specific home location per category, system-wide
//! fallback lists, an optional application prefix and user profile, and a
//! runtime directory that is accepted only when it is private.
//!
//! The library does no filesystem work itself. Operations that search,
//! place, create or list compute the paths involved and take what the
//! filesystem showed (whether a candidate exists, the names in a
//! directory, the permission bits of the runtime directory) as plain values.

mod base_directories;
mod desktop_entries;
pub mod desktop_entry;
mod laws;
pub mod locale;
mod paths;
mod permissions;
mod text;
mod user;

pub use crate::base_directories::{
    env_lookup, list_files, list_files_once, read_file, BaseDirectories, DirStatus,
    Error as BaseDirectoriesError, FileFindIterator, Placement,
};
pub use crate::desktop_entries::DesktopEntries;
pub use crate::laws::{
    lemma_create_matches_get, lemma_drain_one_end, lemma_drain_partitions,
    lemma_get_file_determined, lemma_home_wins, lemma_listing_once, lemma_once_distinct_names,
    lemma_once_within_all, lemma_place_then_find, lemma_place_then_get, lemma_runtime_guard,
};
pub use crate::paths::{is_absolute, join_path, same_text, split_nonempty, split_on, split_path_list};
pub use crate::permissions::Permissions;
pub use crate::user::{get_userpath, UserDirectories, UserDirsError, USER_DIRS_FILE};

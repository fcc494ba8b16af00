//! Where desktop entries (menu items) are found.

use vstd::prelude::*;

use crate::base_directories::{name_views, spec_listing, spec_search_paths, BaseDirectories};
use crate::paths::views;

verus! {

/// Lookup of the desktop entries that make up the application menu.
pub trait DesktopEntries {
    /// The directories that hold menu items, highest priority first.
    spec fn spec_menu_dirs(&self) -> Seq<Seq<char>>;

    /// The directories that hold menu items, highest priority first.
    fn menu_item_dirs(&self) -> (r: Vec<String>)
        ensures
            views(r@) == self.spec_menu_dirs(),
    ;

    /// Every menu item, given the names read from each directory of
    /// [`DesktopEntries::menu_item_dirs`].
    fn list_menu_items(&self, names: &Vec<Vec<String>>) -> (r: Vec<String>)
        ensures
            views(r@) == spec_listing(self.spec_menu_dirs(), name_views(names@)),
    ;
}

impl DesktopEntries for BaseDirectories {
    /// The `applications` directories of the data categories.
    open spec fn spec_menu_dirs(&self) -> Seq<Seq<char>> {
        spec_search_paths(
            self@.data_home,
            self@.data_dirs,
            self@.user_prefix,
            self@.shared_prefix,
            "applications"@,
        )
    }

    fn menu_item_dirs(&self) -> (r: Vec<String>) {
        self.data_search_paths("applications")
    }

    fn list_menu_items(&self, names: &Vec<Vec<String>>) -> (r: Vec<String>) {
        self.list_data_files("applications", names)
    }
}

} // verus!

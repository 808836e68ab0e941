//! Loading the static wallpapers of a folder.
use vstd::prelude::*;
use crate::models::AppState;
use crate::scanner::{found_categories, found_items, image_extensions, scan_static};
use crate::text::string_views;

verus! {

/// Replaces the static wallpapers of `state` with the image files among
/// `files` (the regular files found under `root`, in the order found).
pub fn scan_and_load_static(root: &str, files: &Vec<String>, state: &mut AppState)
    ensures
        final(state)@.static_wallpapers == found_items(root@, string_views(files@), image_extensions()),
        final(state)@.categories == found_categories(root@, string_views(files@), image_extensions()),
        final(state)@.live_wallpapers == old(state)@.live_wallpapers,
        final(state)@.live_categories == old(state)@.live_categories,
        final(state)@.active_category == old(state)@.active_category,
        final(state)@.active_live_category == old(state)@.active_live_category,
{
    scan_static(root, files, state);
}

} // verus!

//! Turning the files found under a wallpaper folder into gallery items:
//! which files are wallpapers, and which category each belongs to.
//!
//! Walking the folder is left to the caller, which hands over the paths
//! of the regular files it found, in the order it found them.
use vstd::prelude::*;
use crate::models::{
    categories_consistent, category_menu, law_add_keeps_categories_consistent, with_category,
    AppState, ItemView, LiveWallpaperItem, WallpaperItem,
};
use crate::paths::{extension, first_dir_below, path_first_dir_below, path_stem_and_extension};
use crate::text::{
    chars_equal, chars_of, lowercase_chars, spec_to_lowercase, string_from_chars, string_views,
    to_owned_string,
};

verus! {

/// The extensions of image files, in lower case.
pub open spec fn image_extensions() -> Seq<Seq<char>> {
    seq!["jpg"@, "jpeg"@, "png"@, "webp"@, "bmp"@, "gif"@, "avif"@, "tiff"@, "tif"@]
}

/// The extensions of video files, in lower case.
pub open spec fn video_extensions() -> Seq<Seq<char>> {
    seq![
        "mp4"@, "webm"@, "mkv"@, "mov"@, "avi"@, "flv"@, "m4v"@, "gif"@, "mpg"@, "mpeg"@, "wmv"@,
        "ts"@, "m2ts"@, "mts"@, "ogv"@, "ogg"@, "3gp"@, "vob"@,
    ]
}

/// Whether the path has an extension whose lower-case form is in `exts`.
pub open spec fn has_extension_in(path: Seq<char>, exts: Seq<Seq<char>>) -> bool {
    match extension(path) {
        Some(e) => exts.contains(spec_to_lowercase(e)),
        None => false,
    }
}

/// The category of a file found under `root`: the first folder below
/// `root` on the way to the file, or `"Root"` for files directly in it.
pub open spec fn category_of(root: Seq<char>, file: Seq<char>) -> Seq<char> {
    match first_dir_below(root, file) {
        Some(d) => d,
        None => "Root"@,
    }
}

/// The items for the files among `files` whose extension is in `exts`,
/// in the order of `files`.
pub open spec fn found_items(root: Seq<char>, files: Seq<Seq<char>>, exts: Seq<Seq<char>>) -> Seq<ItemView>
    decreases files.len(),
{
    if files.len() == 0 {
        seq![]
    } else {
        let prev = found_items(root, files.drop_last(), exts);
        let f = files.last();
        if has_extension_in(f, exts) {
            prev.push(ItemView { path: f, category: category_of(root, f) })
        } else {
            prev
        }
    }
}

/// The categories of those items, each once, in order of first appearance.
pub open spec fn found_categories(root: Seq<char>, files: Seq<Seq<char>>, exts: Seq<Seq<char>>) -> Seq<Seq<char>>
    decreases files.len(),
{
    if files.len() == 0 {
        seq![]
    } else {
        let prev = found_categories(root, files.drop_last(), exts);
        let f = files.last();
        if has_extension_in(f, exts) {
            with_category(prev, category_of(root, f))
        } else {
            prev
        }
    }
}

/// Whether `x` is one of the strings of `list`.
fn in_list(x: &Vec<char>, list: &Vec<&str>) -> (r: bool)
    ensures
        r == list@.map_values(|s: &str| s@).contains(x@),
{
    let ghost lv = list@.map_values(|s: &str| s@);
    let mut i: usize = 0;
    while i < list.len()
        invariant
            i <= list.len(),
            lv == list@.map_values(|s: &str| s@),
            forall|k: int| 0 <= k < i ==> lv[k] != x@,
        decreases list.len() - i,
    {
        let c = chars_of(list[i]);
        if chars_equal(&c, x) {
            assert(lv[i as int] == x@);
            return true;
        }
        i = i + 1;
    }
    false
}

/// Whether a lower-case extension is that of an image file.
pub fn is_image_extension(ext: &Vec<char>) -> (r: bool)
    ensures
        r == image_extensions().contains(ext@),
{
    let list: Vec<&str> = vec!["jpg", "jpeg", "png", "webp", "bmp", "gif", "avif", "tiff", "tif"];
    assert(list@.map_values(|s: &str| s@) =~= image_extensions());
    in_list(ext, &list)
}

/// Whether a lower-case extension is that of a video file.
pub fn is_video_extension(ext: &Vec<char>) -> (r: bool)
    ensures
        r == video_extensions().contains(ext@),
{
    let list: Vec<&str> = vec![
        "mp4", "webm", "mkv", "mov", "avi", "flv", "m4v", "gif", "mpg", "mpeg", "wmv", "ts",
        "m2ts", "mts", "ogv", "ogg", "3gp", "vob",
    ];
    assert(list@.map_values(|s: &str| s@) =~= video_extensions());
    in_list(ext, &list)
}

/// Whether the file at `path` is an image wallpaper (`video` false) or a
/// video wallpaper (`video` true), by its extension.
pub fn is_wallpaper_file(path: &String, video: bool) -> (r: bool)
    ensures
        r == has_extension_in(path@, if video { video_extensions() } else { image_extensions() }),
{
    let pc = chars_of(path.as_str());
    match path_stem_and_extension(&pc) {
        Some(p) => match p.1 {
            Some(e) => {
                let low = lowercase_chars(&e);
                if video {
                    is_video_extension(&low)
                } else {
                    is_image_extension(&low)
                }
            },
            None => false,
        },
        None => false,
    }
}

/// The category of a file found under `root`: the first folder below
/// `root` on the way to the file, or `"Root"`.
pub fn get_category(root: &str, file: &str) -> (r: String)
    ensures
        r@ == category_of(root@, file@),
{
    let rc = chars_of(root);
    let fc = chars_of(file);
    match path_first_dir_below(&rc, &fc) {
        Some(d) => string_from_chars(&d),
        None => to_owned_string("Root"),
    }
}

/// Replaces the static wallpapers and their categories with the image
/// files among `files` (the regular files found under `root`, in the order
/// found).
pub fn scan_static(root: &str, files: &Vec<String>, state: &mut AppState)
    ensures
        final(state)@.static_wallpapers == found_items(root@, string_views(files@), image_extensions()),
        final(state)@.categories == found_categories(root@, string_views(files@), image_extensions()),
        final(state)@.live_wallpapers == old(state)@.live_wallpapers,
        final(state)@.live_categories == old(state)@.live_categories,
        final(state)@.active_category == old(state)@.active_category,
        final(state)@.active_live_category == old(state)@.active_live_category,
{
    state.static_wallpapers.clear();
    state.categories.clear();
    let ghost fv = string_views(files@);
    let ghost start = state@;
    assert(fv.take(0) =~= Seq::<Seq<char>>::empty());
    assert(state@.static_wallpapers =~= Seq::<ItemView>::empty());
    assert(state@.categories =~= Seq::<Seq<char>>::empty());
    let mut i: usize = 0;
    while i < files.len()
        invariant
            i <= files.len(),
            fv == string_views(files@),
            state@.static_wallpapers == found_items(root@, fv.take(i as int), image_extensions()),
            state@.categories == found_categories(root@, fv.take(i as int), image_extensions()),
            state@.live_wallpapers == start.live_wallpapers,
            state@.live_categories == start.live_categories,
            state@.active_category == start.active_category,
            state@.active_live_category == start.active_live_category,
        decreases files.len() - i,
    {
        let f = &files[i];
        assert(fv.take(i + 1).drop_last() =~= fv.take(i as int));
        assert(fv.take(i + 1).last() == f@);
        if is_wallpaper_file(f, false) {
            let category = get_category(root, f.as_str());
            state.add_static_wallpaper(WallpaperItem { path: f.clone(), category });
        }
        i = i + 1;
    }
    assert(fv.take(files.len() as int) =~= fv);
}

/// Replaces the live wallpapers and their categories with the video files
/// among `files` (the regular files found under `root`, in the order
/// found).
pub fn scan_live(root: &str, files: &Vec<String>, state: &mut AppState)
    ensures
        final(state)@.live_wallpapers == found_items(root@, string_views(files@), video_extensions()),
        final(state)@.live_categories == found_categories(root@, string_views(files@), video_extensions()),
        final(state)@.static_wallpapers == old(state)@.static_wallpapers,
        final(state)@.categories == old(state)@.categories,
        final(state)@.active_category == old(state)@.active_category,
        final(state)@.active_live_category == old(state)@.active_live_category,
{
    state.live_wallpapers.clear();
    state.live_categories.clear();
    let ghost fv = string_views(files@);
    let ghost start = state@;
    assert(fv.take(0) =~= Seq::<Seq<char>>::empty());
    assert(state@.live_wallpapers =~= Seq::<ItemView>::empty());
    assert(state@.live_categories =~= Seq::<Seq<char>>::empty());
    let mut i: usize = 0;
    while i < files.len()
        invariant
            i <= files.len(),
            fv == string_views(files@),
            state@.live_wallpapers == found_items(root@, fv.take(i as int), video_extensions()),
            state@.live_categories == found_categories(root@, fv.take(i as int), video_extensions()),
            state@.static_wallpapers == start.static_wallpapers,
            state@.categories == start.categories,
            state@.active_category == start.active_category,
            state@.active_live_category == start.active_live_category,
        decreases files.len() - i,
    {
        let f = &files[i];
        assert(fv.take(i + 1).drop_last() =~= fv.take(i as int));
        assert(fv.take(i + 1).last() == f@);
        if is_wallpaper_file(f, true) {
            let category = get_category(root, f.as_str());
            state.add_live_wallpaper(LiveWallpaperItem { path: f.clone(), category });
        }
        i = i + 1;
    }
    assert(fv.take(files.len() as int) =~= fv);
}

/// `"All"` and the static categories of `state`, sorted, each once.
pub fn get_categories(state: &AppState) -> (r: Vec<String>)
    ensures
        category_menu(state@.categories, string_views(r@)),
{
    state.get_categories()
}

/// `"All"` and the live categories of `state`, sorted, each once.
pub fn get_live_categories(state: &AppState) -> (r: Vec<String>)
    ensures
        category_menu(state@.live_categories, string_views(r@)),
{
    state.get_live_categories()
}

/// After a scan, the categories are those of the wallpapers found: each
/// listed once, every wallpaper's category listed, and every category
/// listed that of some wallpaper; and every wallpaper found is one of the
/// files, with a wallpaper extension, filed under its category.
pub proof fn law_scan_is_consistent(root: Seq<char>, files: Seq<Seq<char>>, exts: Seq<Seq<char>>)
    ensures
        categories_consistent(found_items(root, files, exts), found_categories(root, files, exts)),
        forall|c: Seq<char>|
            #[trigger] found_categories(root, files, exts).contains(c) ==> exists|i: int|
                0 <= i < found_items(root, files, exts).len() && found_items(root, files, exts)[i].category
                    == c,
        forall|i: int|
            0 <= i < found_items(root, files, exts).len() ==> {
                let it = #[trigger] found_items(root, files, exts)[i];
                &&& files.contains(it.path)
                &&& has_extension_in(it.path, exts)
                &&& it.category == category_of(root, it.path)
            },
    decreases files.len(),
{
    if files.len() == 0 {
        assert(found_categories(root, files, exts).no_duplicates());
    } else {
        let prev = files.drop_last();
        law_scan_is_consistent(root, prev, exts);
        let f = files.last();
        let items = found_items(root, files, exts);
        let pitems = found_items(root, prev, exts);
        let pcats = found_categories(root, prev, exts);
        let cats = found_categories(root, files, exts);
        if has_extension_in(f, exts) {
            let it = ItemView { path: f, category: category_of(root, f) };
            law_add_keeps_categories_consistent(pitems, pcats, it);
        }
        assert forall|c: Seq<char>| #[trigger] cats.contains(c) implies exists|i: int|
            0 <= i < items.len() && items[i].category == c by {
            if pcats.contains(c) {
                let i = choose|i: int| 0 <= i < pitems.len() && pitems[i].category == c;
                assert(items[i] == pitems[i]);
            } else {
                let k = choose|k: int| 0 <= k < cats.len() && cats[k] == c;
                assert(has_extension_in(f, exts));
                assert(c == category_of(root, f));
                assert(items[items.len() - 1].category == c);
            }
        }
        assert forall|i: int| 0 <= i < items.len() implies {
            let it = #[trigger] items[i];
            &&& files.contains(it.path)
            &&& has_extension_in(it.path, exts)
            &&& it.category == category_of(root, it.path)
        } by {
            if i < pitems.len() {
                assert(items[i] == pitems[i]);
                let k = choose|k: int| 0 <= k < prev.len() && prev[k] == pitems[i].path;
                assert(files[k] == prev[k]);
            } else {
                assert(files[files.len() - 1] == f);
            }
        }
    }
}

/// A file is found exactly when its extension is a wallpaper extension:
/// as many wallpapers are found as there are such files.
pub open spec fn count_matching(files: Seq<Seq<char>>, exts: Seq<Seq<char>>) -> nat
    decreases files.len(),
{
    if files.len() == 0 {
        0
    } else {
        count_matching(files.drop_last(), exts) + if has_extension_in(files.last(), exts) { 1nat } else { 0nat }
    }
}

/// A scan finds one wallpaper for each file with a wallpaper extension.
pub proof fn law_scan_finds_each_matching_file(root: Seq<char>, files: Seq<Seq<char>>, exts: Seq<Seq<char>>)
    ensures
        found_items(root, files, exts).len() == count_matching(files, exts),
    decreases files.len(),
{
    if files.len() > 0 {
        law_scan_finds_each_matching_file(root, files.drop_last(), exts);
    }
}

/// A file that `has_extension_in` accepts is among the items found.
proof fn lemma_found_contains(root: Seq<char>, files: Seq<Seq<char>>, exts: Seq<Seq<char>>, k: int)
    requires
        0 <= k < files.len(),
        has_extension_in(files[k], exts),
    ensures
        found_items(root, files, exts).contains(ItemView { path: files[k], category: category_of(root, files[k]) }),
    decreases files.len(),
{
    let it = ItemView { path: files[k], category: category_of(root, files[k]) };
    let prev = files.drop_last();
    let fp = found_items(root, prev, exts);
    if k == files.len() - 1 {
        assert(fp.push(it)[fp.len() as int] == it);
    } else {
        assert(prev[k] == files[k]);
        lemma_found_contains(root, prev, exts, k);
        let j = choose|j: int| 0 <= j < fp.len() && fp[j] == it;
        if has_extension_in(files.last(), exts) {
            assert(fp.push(ItemView { path: files.last(), category: category_of(root, files.last()) })[j] == it);
        }
    }
}

/// The image files are the static wallpapers: a file whose extension
/// lower-cases to jpg, jpeg, png, webp, bmp, gif, avif, tiff or tif is
/// found by a static scan, filed under its category.
pub proof fn law_image_files_are_found(root: Seq<char>, files: Seq<Seq<char>>, k: int)
    requires
        0 <= k < files.len(),
        extension(files[k]) is Some,
        ({
            let e = spec_to_lowercase(extension(files[k]).unwrap());
            e == "jpg"@
            || e == "jpeg"@
            || e == "png"@
            || e == "webp"@
            || e == "bmp"@
            || e == "gif"@
            || e == "avif"@
            || e == "tiff"@
            || e == "tif"@
        }),
    ensures
        found_items(root, files, image_extensions()).contains(
            ItemView { path: files[k], category: category_of(root, files[k]) },
        ),
{
    assert(image_extensions()[0] == "jpg"@);
    assert(image_extensions()[1] == "jpeg"@);
    assert(image_extensions()[2] == "png"@);
    assert(image_extensions()[3] == "webp"@);
    assert(image_extensions()[4] == "bmp"@);
    assert(image_extensions()[5] == "gif"@);
    assert(image_extensions()[6] == "avif"@);
    assert(image_extensions()[7] == "tiff"@);
    assert(image_extensions()[8] == "tif"@);
    lemma_found_contains(root, files, image_extensions(), k);
}

/// A static scan finds only image files: every wallpaper found is one of
/// the files, and its extension lower-cases to jpg, jpeg, png, webp, bmp,
/// gif, avif, tiff or tif.
pub proof fn law_static_scan_finds_only_images(root: Seq<char>, files: Seq<Seq<char>>, j: int)
    requires
        0 <= j < found_items(root, files, image_extensions()).len(),
    ensures
        ({
            let p = found_items(root, files, image_extensions())[j].path;
            &&& files.contains(p)
            &&& extension(p) is Some
            &&& ({
                let e = spec_to_lowercase(extension(p).unwrap());
                e == "jpg"@
            || e == "jpeg"@
            || e == "png"@
            || e == "webp"@
            || e == "bmp"@
            || e == "gif"@
            || e == "avif"@
            || e == "tiff"@
            || e == "tif"@
            })
        }),
{
    law_scan_is_consistent(root, files, image_extensions());
    let p = found_items(root, files, image_extensions())[j].path;
    assert(has_extension_in(p, image_extensions()));
    let e = spec_to_lowercase(extension(p).unwrap());
    let n = choose|n: int| 0 <= n < image_extensions().len() && image_extensions()[n] == e;
    assert(image_extensions()[0] == "jpg"@);
    assert(image_extensions()[1] == "jpeg"@);
    assert(image_extensions()[2] == "png"@);
    assert(image_extensions()[3] == "webp"@);
    assert(image_extensions()[4] == "bmp"@);
    assert(image_extensions()[5] == "gif"@);
    assert(image_extensions()[6] == "avif"@);
    assert(image_extensions()[7] == "tiff"@);
    assert(image_extensions()[8] == "tif"@);
}

/// The video files are the live wallpapers: a file whose extension
/// lower-cases to one of the video extensions is found by a live scan,
/// filed under its category.
pub proof fn law_video_files_are_found(root: Seq<char>, files: Seq<Seq<char>>, k: int)
    requires
        0 <= k < files.len(),
        extension(files[k]) is Some,
        ({
            let e = spec_to_lowercase(extension(files[k]).unwrap());
            e == "mp4"@
            || e == "webm"@
            || e == "mkv"@
            || e == "mov"@
            || e == "avi"@
            || e == "flv"@
            || e == "m4v"@
            || e == "gif"@
            || e == "mpg"@
            || e == "mpeg"@
            || e == "wmv"@
            || e == "ts"@
            || e == "m2ts"@
            || e == "mts"@
            || e == "ogv"@
            || e == "ogg"@
            || e == "3gp"@
            || e == "vob"@
        }),
    ensures
        found_items(root, files, video_extensions()).contains(
            ItemView { path: files[k], category: category_of(root, files[k]) },
        ),
{
    assert(video_extensions()[0] == "mp4"@);
    assert(video_extensions()[1] == "webm"@);
    assert(video_extensions()[2] == "mkv"@);
    assert(video_extensions()[3] == "mov"@);
    assert(video_extensions()[4] == "avi"@);
    assert(video_extensions()[5] == "flv"@);
    assert(video_extensions()[6] == "m4v"@);
    assert(video_extensions()[7] == "gif"@);
    assert(video_extensions()[8] == "mpg"@);
    assert(video_extensions()[9] == "mpeg"@);
    assert(video_extensions()[10] == "wmv"@);
    assert(video_extensions()[11] == "ts"@);
    assert(video_extensions()[12] == "m2ts"@);
    assert(video_extensions()[13] == "mts"@);
    assert(video_extensions()[14] == "ogv"@);
    assert(video_extensions()[15] == "ogg"@);
    assert(video_extensions()[16] == "3gp"@);
    assert(video_extensions()[17] == "vob"@);
    lemma_found_contains(root, files, video_extensions(), k);
}

/// A live scan finds only video files: every wallpaper found is one of the
/// files, and its extension lower-cases to a video extension.
pub proof fn law_live_scan_finds_only_videos(root: Seq<char>, files: Seq<Seq<char>>, j: int)
    requires
        0 <= j < found_items(root, files, video_extensions()).len(),
    ensures
        ({
            let p = found_items(root, files, video_extensions())[j].path;
            &&& files.contains(p)
            &&& extension(p) is Some
            &&& ({
                let e = spec_to_lowercase(extension(p).unwrap());
                e == "mp4"@
            || e == "webm"@
            || e == "mkv"@
            || e == "mov"@
            || e == "avi"@
            || e == "flv"@
            || e == "m4v"@
            || e == "gif"@
            || e == "mpg"@
            || e == "mpeg"@
            || e == "wmv"@
            || e == "ts"@
            || e == "m2ts"@
            || e == "mts"@
            || e == "ogv"@
            || e == "ogg"@
            || e == "3gp"@
            || e == "vob"@
            })
        }),
{
    law_scan_is_consistent(root, files, video_extensions());
    let p = found_items(root, files, video_extensions())[j].path;
    assert(has_extension_in(p, video_extensions()));
    let e = spec_to_lowercase(extension(p).unwrap());
    let n = choose|n: int| 0 <= n < video_extensions().len() && video_extensions()[n] == e;
    assert(video_extensions()[0] == "mp4"@);
    assert(video_extensions()[1] == "webm"@);
    assert(video_extensions()[2] == "mkv"@);
    assert(video_extensions()[3] == "mov"@);
    assert(video_extensions()[4] == "avi"@);
    assert(video_extensions()[5] == "flv"@);
    assert(video_extensions()[6] == "m4v"@);
    assert(video_extensions()[7] == "gif"@);
    assert(video_extensions()[8] == "mpg"@);
    assert(video_extensions()[9] == "mpeg"@);
    assert(video_extensions()[10] == "wmv"@);
    assert(video_extensions()[11] == "ts"@);
    assert(video_extensions()[12] == "m2ts"@);
    assert(video_extensions()[13] == "mts"@);
    assert(video_extensions()[14] == "ogv"@);
    assert(video_extensions()[15] == "ogg"@);
    assert(video_extensions()[16] == "3gp"@);
    assert(video_extensions()[17] == "vob"@);
}

} // verus!

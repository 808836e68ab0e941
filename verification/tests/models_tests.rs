use rexpaper::models::{contains_string, AppState, LiveWallpaperItem, WallpaperItem};

fn item(path: &str, category: &str) -> WallpaperItem {
    WallpaperItem { path: path.to_string(), category: category.to_string() }
}

fn live(path: &str, category: &str) -> LiveWallpaperItem {
    LiveWallpaperItem { path: path.to_string(), category: category.to_string() }
}

fn sample() -> AppState {
    let mut st = AppState::new();
    st.add_static_wallpaper(item("/w/Nature/Forest Morning.jpg", "Nature"));
    st.add_static_wallpaper(item("/w/Anime/hero.png", "Anime"));
    st.add_static_wallpaper(item("/w/Nature/river.png", "Nature"));
    st.add_static_wallpaper(item("/w/sky.png", "Root"));
    st
}

#[test]
fn adding_lists_each_category_once_in_first_seen_order() {
    let st = sample();
    assert_eq!(st.static_wallpapers.len(), 4);
    assert_eq!(st.categories, vec!["Nature", "Anime", "Root"]);
    assert!(st.live_categories.is_empty());
    assert!(contains_string(&st.categories, &"Anime".to_string()));
    assert!(!contains_string(&st.categories, &"anime".to_string()));
}

#[test]
fn live_wallpapers_have_their_own_categories() {
    let mut st = AppState::default();
    st.add_live_wallpaper(live("/v/Space/stars.mkv", "Space"));
    st.add_live_wallpaper(live("/v/Space/moon.mp4", "Space"));
    st.add_live_wallpaper(live("/v/beach.webm", "Root"));
    assert_eq!(st.live_categories, vec!["Space", "Root"]);
    assert_eq!(st.get_live_categories(), vec!["All", "Root", "Space"]);
    assert!(st.categories.is_empty());
    assert_eq!(st.get_categories(), vec!["All"]);
}

#[test]
fn category_menu_is_sorted_and_deduplicated_like_sort_then_dedup() {
    let mut st = AppState::new();
    for c in ["zeta", "All", "Beta", "alpha", "Beta", "Ärger", "All"] {
        st.add_static_wallpaper(item(&format!("/w/{}/x.png", c), c));
    }
    let mut expected = vec!["All".to_string()];
    expected.extend(st.categories.iter().cloned());
    expected.sort();
    expected.dedup();
    assert_eq!(st.get_categories(), expected);
    assert_eq!(st.get_categories(), vec!["All", "Beta", "alpha", "zeta", "Ärger"]);
}

#[test]
fn filtering_by_category() {
    let st = sample();
    let nature = st.filter_static("Nature", "");
    assert_eq!(nature.len(), 2);
    assert_eq!(nature[0].path, "/w/Nature/Forest Morning.jpg");
    assert_eq!(nature[1].path, "/w/Nature/river.png");
    assert_eq!(st.filter_static("All", "").len(), 4);
    assert_eq!(st.filter_static("Nowhere", "").len(), 0);
    assert_eq!(st.filter_static("all", "").len(), 0);
}

#[test]
fn searching_matches_stem_or_category_ignoring_case_and_blanks() {
    let st = sample();
    let r = st.filter_static("All", "  FOREST  ");
    assert_eq!(r.len(), 1);
    assert_eq!(r[0].category, "Nature");
    // The category text matches too.
    assert_eq!(st.filter_static("All", "natu").len(), 2);
    // The extension is not part of the stem.
    assert_eq!(st.filter_static("All", "png").len(), 0);
    // A blank search shows everything.
    assert_eq!(st.filter_static("All", " \t ").len(), 4);
    // Category and search together.
    assert_eq!(st.filter_static("Anime", "river").len(), 0);
    assert_eq!(st.filter_static("Nature", "river").len(), 1);
}

#[test]
fn live_filter_works_the_same_way() {
    let mut st = AppState::new();
    st.add_live_wallpaper(live("/v/Nature/Waterfall.webm", "Nature"));
    st.add_live_wallpaper(live("/v/Nature/stars.mkv", "Nature"));
    st.add_live_wallpaper(live("/v/fight.mp4", "Root"));
    assert_eq!(st.filter_live("All", "waterfall").len(), 1);
    assert_eq!(st.filter_live("Root", "").len(), 1);
    assert_eq!(st.filter_live("All", "").len(), 3);
    assert_eq!(st.filter_live("All", "ROO").len(), 1);
}

#[test]
fn copies_are_equal() {
    let a = item("/p", "c");
    let b = a.copy();
    assert_eq!(a.path, b.path);
    assert_eq!(a.category, b.category);
    let l = live("/q", "d").copy();
    assert_eq!(l.path, "/q");
}

#[test]
fn every_wallpaper_category_is_listed_once() {
    let st = sample();
    for w in st.static_wallpapers.iter() {
        assert_eq!(st.categories.iter().filter(|c| **c == w.category).count(), 1);
    }
    let menu = st.get_categories();
    let mut sorted = menu.clone();
    sorted.sort();
    sorted.dedup();
    assert_eq!(menu, sorted);
    // "All" is in the menu, but not always first.
    let mut st2 = AppState::new();
    st2.add_static_wallpaper(item("/w/3D/x.png", "3D"));
    assert_eq!(st2.get_categories(), vec!["3D", "All"]);
}

fn paths(v: &[WallpaperItem]) -> Vec<String> {
    v.iter().map(|w| w.path.clone()).collect()
}

#[test]
fn a_category_view_is_the_all_view_narrowed() {
    let st = sample();
    for search in ["", "r", "nature", "o"] {
        let all = st.filter_static("All", search);
        let nature = st.filter_static("Nature", search);
        let narrowed: Vec<WallpaperItem> =
            all.into_iter().filter(|w| w.category == "Nature").collect();
        assert_eq!(paths(&nature), paths(&narrowed), "{}", search);
    }
}

#[test]
fn upper_case_and_spaces_around_a_search_change_nothing() {
    let st = sample();
    for q in ["forest", "Riv", "anime", "ro", "x"] {
        let padded = format!(" {} ", q.to_uppercase());
        assert_eq!(paths(&st.filter_static("All", q)), paths(&st.filter_static("All", &padded)), "{}", q);
        assert_eq!(paths(&st.filter_static("Nature", q)), paths(&st.filter_static("Nature", &padded)), "{}", q);
    }
}

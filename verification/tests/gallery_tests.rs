use rexpaper::gallery::{
    display_name, group_rows, live_gallery, live_to_data, static_gallery, static_to_data,
    WallpaperCard, MAX_GRID_ITEMS,
};
use rexpaper::models::{AppState, LiveWallpaperItem, WallpaperItem};
use rexpaper::static_wallpaper::scan_and_load_static;

fn card(n: usize) -> WallpaperCard {
    WallpaperCard { name: n.to_string(), category: "c".to_string(), is_live: false, path: n.to_string() }
}

#[test]
fn card_names_are_file_stems() {
    let it = WallpaperItem { path: "/w/Nature/forest.jpg".to_string(), category: "Nature".to_string() };
    let c = static_to_data(&it);
    assert_eq!(c.name, "forest");
    assert_eq!(c.category, "Nature");
    assert!(!c.is_live);
    assert_eq!(c.path, "/w/Nature/forest.jpg");
    let l = LiveWallpaperItem { path: "/v/a.b.mp4".to_string(), category: "Root".to_string() };
    let c = live_to_data(&l);
    assert_eq!(c.name, "a.b");
    assert!(c.is_live);
    assert_eq!(display_name(&"/".to_string(), &"Root".to_string()), "Root");
}

#[test]
fn rows_of_cards() {
    let items: Vec<WallpaperCard> = (0..10).map(card).collect();
    let rows = group_rows(&items, 4);
    let sizes: Vec<usize> = rows.iter().map(|r| r.len()).collect();
    assert_eq!(sizes, vec![4, 4, 2]);
    assert_eq!(rows[2][1].name, "9");
    let rows = group_rows(&items, 0);
    assert_eq!(rows.len(), 10);
    let rows = group_rows(&items, 5);
    assert_eq!(rows.iter().map(|r| r.len()).collect::<Vec<_>>(), vec![5, 5]);
    assert!(group_rows(&Vec::new(), 3).is_empty());
    let flat: Vec<String> = group_rows(&items, 3).into_iter().flatten().map(|c| c.name).collect();
    assert_eq!(flat, (0..10).map(|n| n.to_string()).collect::<Vec<_>>());
}

#[test]
fn gallery_pages_show_at_most_the_grid_limit() {
    let mut st = AppState::new();
    let files: Vec<String> = (0..300).map(|i| format!("/w/Big/img{}.png", i)).collect();
    scan_and_load_static("/w", &files, &mut st);
    let page = static_gallery(&st, "All", "", 4);
    assert_eq!(page.categories, vec!["All", "Big"]);
    assert_eq!(page.cards.len(), MAX_GRID_ITEMS);
    assert_eq!(page.rows.len(), 63);
    assert_eq!(page.cards[0].name, "img0");
    let page = static_gallery(&st, "All", "img29", 4);
    assert_eq!(page.cards.len(), 11);
    let live = live_gallery(&st, "All", "", 4);
    assert_eq!(live.categories, vec!["All"]);
    assert!(live.cards.is_empty());
    assert!(live.rows.is_empty());
}

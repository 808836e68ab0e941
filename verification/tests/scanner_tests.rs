use rexpaper::models::AppState;
use rexpaper::scanner::{get_category, scan_live, scan_static};

fn join(dir: &str, name: &str) -> String {
    format!("{}/{}", dir, name)
}

#[test]
fn test_scan_static_and_live_wallpapers() {
    let temp_dir = "/tmp/rexpaper_test_1".to_string();
    let anime_sub = join(&temp_dir, "Anime");
    let nature_sub = join(&temp_dir, "Nature");

    // The regular files found under the folder.
    let files = vec![
        join(&anime_sub, "hero.png"),
        join(&anime_sub, "fight.mp4"),
        join(&nature_sub, "forest.jpg"),
        join(&nature_sub, "waterfall.webm"),
        join(&nature_sub, "stars.mkv"),
        join(&temp_dir, "root_video.mov"),
        join(&temp_dir, "readme.txt"),
    ];

    let mut state = AppState::default();

    // Scan static
    scan_static(&temp_dir, &files, &mut state);
    {
        assert_eq!(state.static_wallpapers.len(), 2);
        let categories = state.get_categories();
        assert!(categories.contains(&"All".to_string()));
        assert!(categories.contains(&"Anime".to_string()));
        assert!(categories.contains(&"Nature".to_string()));
    }

    // Scan live
    scan_live(&temp_dir, &files, &mut state);
    {
        assert_eq!(state.live_wallpapers.len(), 4);
        let live_cats = state.get_live_categories();
        assert!(live_cats.contains(&"All".to_string()));
        assert!(live_cats.contains(&"Anime".to_string()));
        assert!(live_cats.contains(&"Nature".to_string()));
        assert!(live_cats.contains(&"Root".to_string()));

        let anime_live = state.filter_live("Anime", "");
        assert_eq!(anime_live.len(), 1);
        assert_eq!(std::path::Path::new(&anime_live[0].path).file_name().unwrap(), "fight.mp4");

        let nature_live = state.filter_live("Nature", "");
        assert_eq!(nature_live.len(), 2);

        let search_waterfall = state.filter_live("All", "waterfall");
        assert_eq!(search_waterfall.len(), 1);
    }
}

#[test]
fn scan_keeps_walk_order_and_categories_in_first_seen_order() {
    let root = "C:\\Pictures";
    let files = vec![
        "C:\\Pictures\\Zoo\\a.PNG".to_string(),
        "C:\\Pictures\\Art\\b.jpeg".to_string(),
        "C:\\Pictures\\Zoo\\deep\\c.tif".to_string(),
        "C:\\Pictures\\top.gif".to_string(),
        "C:\\Pictures\\notes.doc".to_string(),
        "C:\\Pictures\\noext".to_string(),
    ];
    let mut state = AppState::new();
    scan_static(root, &files, &mut state);
    let paths: Vec<&str> = state.static_wallpapers.iter().map(|w| w.path.as_str()).collect();
    assert_eq!(paths, vec![
        "C:\\Pictures\\Zoo\\a.PNG",
        "C:\\Pictures\\Art\\b.jpeg",
        "C:\\Pictures\\Zoo\\deep\\c.tif",
        "C:\\Pictures\\top.gif",
    ]);
    let cats: Vec<&str> = state.static_wallpapers.iter().map(|w| w.category.as_str()).collect();
    assert_eq!(cats, vec!["Zoo", "Art", "Zoo", "Root"]);
    assert_eq!(state.categories, vec!["Zoo".to_string(), "Art".to_string(), "Root".to_string()]);
    assert_eq!(state.get_categories(), vec!["All", "Art", "Root", "Zoo"]);
}

#[test]
fn rescanning_replaces_previous_results() {
    let mut state = AppState::new();
    scan_static("/w", &vec!["/w/A/x.png".to_string()], &mut state);
    scan_static("/w", &vec!["/w/B/y.png".to_string(), "/w/B/z.bmp".to_string()], &mut state);
    assert_eq!(state.static_wallpapers.len(), 2);
    assert_eq!(state.categories, vec!["B".to_string()]);
    // The live side is untouched by a static scan.
    assert!(state.live_wallpapers.is_empty());
}

#[test]
fn gif_counts_as_both_image_and_video() {
    let mut state = AppState::new();
    let files = vec!["/w/anim.gif".to_string()];
    scan_static("/w", &files, &mut state);
    scan_live("/w", &files, &mut state);
    assert_eq!(state.static_wallpapers.len(), 1);
    assert_eq!(state.live_wallpapers.len(), 1);
}

#[test]
fn category_is_first_folder_below_root_or_root() {
    assert_eq!(get_category("/w", "/w/Anime/sub/x.png"), "Anime");
    assert_eq!(get_category("/w/", "/w//Anime/x.png"), "Anime");
    assert_eq!(get_category("/w", "/w/x.png"), "Root");
    assert_eq!(get_category("/w", "/other/A/x.png"), "Root");
    assert_eq!(get_category("/w", "w/A/x.png"), "Root");
    assert_eq!(get_category("C:\\w", "C:\\w\\Cats\\x.png"), "Cats");
    assert_eq!(get_category("./w", "w/Dogs/x.png"), "Root");
    assert_eq!(get_category("./w", "./w/Dogs/x.png"), "Dogs");
}

#[test]
fn a_leading_dot_is_a_component_of_its_own() {
    assert_eq!(get_category("w", "./w/Anime/x.png"), "Root");
    assert_eq!(get_category("w", "w/./Anime/x.png"), "Anime");
    assert_eq!(get_category(".", "./Anime/x.png"), "Anime");
}

#[test]
fn drives_compare_without_regard_to_case() {
    assert_eq!(get_category("C:\\w", "c:\\w\\Anime\\x.png"), "Anime");
    assert_eq!(get_category("C:\\w", "D:\\w\\Anime\\x.png"), "Root");
    assert_eq!(get_category("C:\\w", "C:w\\Anime\\x.png"), "Root");
    assert_eq!(get_category("", "C:\\x.png"), "C:");
    assert_eq!(get_category("c:", "c:\\x.png"), "\\");
}

#[test]
fn hidden_files_without_extension_are_ignored() {
    let mut state = AppState::new();
    scan_static("/w", &vec!["/w/.png".to_string(), "/w/a.b.JPG".to_string()], &mut state);
    assert_eq!(state.static_wallpapers.len(), 1);
    assert_eq!(state.static_wallpapers[0].path, "/w/a.b.JPG");
}

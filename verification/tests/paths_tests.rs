use rexpaper::paths::{
    join_with_separator, path_components, path_file_name, path_first_dir_below, path_has_drive,
    path_has_root, path_stem_and_extension, split_name,
};

fn v(s: &str) -> Vec<char> {
    s.chars().collect()
}

fn s(v: &[char]) -> String {
    v.iter().collect()
}

fn comps(p: &str) -> Vec<String> {
    path_components(&v(p)).iter().map(|c| s(c)).collect()
}

#[test]
fn components_split_on_both_separators() {
    assert_eq!(comps("/a/b/c.png"), vec!["\\", "a", "b", "c.png"]);
    assert_eq!(comps("C:\\Users\\me\\x.jpg"), vec!["C:", "\\", "Users", "me", "x.jpg"]);
    assert_eq!(comps("c:rel\\x"), vec!["c:", "rel", "x"]);
    assert_eq!(comps("a//b/./c/"), vec!["a", "b", "c"]);
    assert_eq!(comps("../a"), vec!["..", "a"]);
    assert!(comps("").is_empty());
    assert_eq!(comps("/"), vec!["\\"]);
    assert!(path_has_root(&v("/a")));
    assert!(path_has_root(&v("\\a")));
    assert!(path_has_root(&v("C:/a")));
    assert!(!path_has_root(&v("C:a")));
    assert!(!path_has_root(&v("a/b")));
    assert!(path_has_drive(&v("z:")));
    assert!(!path_has_drive(&v("1:")));
}

#[test]
fn a_leading_dot_is_kept_and_others_are_dropped() {
    assert_eq!(comps("./w/x"), vec![".", "w", "x"]);
    assert_eq!(comps(".\\w"), vec![".", "w"]);
    assert_eq!(comps("."), vec!["."]);
    assert_eq!(comps("./."), vec!["."]);
    assert_eq!(comps("w/./x/."), vec!["w", "x"]);
    assert_eq!(comps("/./w"), vec!["\\", "w"]);
    assert_eq!(comps("C:./w"), vec!["C:", ".", "w"]);
    assert_eq!(comps("C:\\./w"), vec!["C:", "\\", "w"]);
    assert_eq!(comps(".hidden/x"), vec![".hidden", "x"]);
}

#[test]
fn file_names_stems_and_extensions() {
    assert_eq!(path_file_name(&v("/a/b.png")).map(|n| s(&n)), Some("b.png".to_string()));
    assert_eq!(path_file_name(&v("/a/..")), None);
    assert_eq!(path_file_name(&v("/")), None);
    assert_eq!(path_file_name(&v(".")), None);
    assert_eq!(path_file_name(&v("C:")), None);
    assert_eq!(path_file_name(&v("C:x.png")).map(|n| s(&n)), Some("x.png".to_string()));
    let (stem, ext) = path_stem_and_extension(&v("/w/forest.JPG")).unwrap();
    assert_eq!(s(&stem), "forest");
    assert_eq!(ext.map(|e| s(&e)), Some("JPG".to_string()));
    let (stem, ext) = path_stem_and_extension(&v("/w/archive.tar.gz")).unwrap();
    assert_eq!(s(&stem), "archive.tar");
    assert_eq!(ext.map(|e| s(&e)), Some("gz".to_string()));
    let (stem, ext) = path_stem_and_extension(&v("/w/.hidden")).unwrap();
    assert_eq!(s(&stem), ".hidden");
    assert!(ext.is_none());
    let (stem, ext) = split_name(&v("trailing."));
    assert_eq!(s(&stem), "trailing");
    assert_eq!(ext.map(|e| s(&e)), Some(String::new()));
    let (stem, ext) = split_name(&v("plain"));
    assert_eq!(s(&stem), "plain");
    assert!(ext.is_none());
}

#[test]
fn std_agrees_on_plain_unix_paths() {
    for p in ["/a/b/c.png", "/a/b.tar.gz", "/a/.x", "rel/x.y", "/a/b/"] {
        let path = std::path::Path::new(p);
        let ours = path_stem_and_extension(&v(p));
        let stem = path.file_stem().map(|x| x.to_str().unwrap().to_string());
        let ext = path.extension().map(|x| x.to_str().unwrap().to_string());
        assert_eq!(ours.as_ref().map(|o| s(&o.0)), stem, "{}", p);
        assert_eq!(ours.and_then(|o| o.1.map(|e| s(&e))), ext, "{}", p);
    }
}

#[test]
fn first_folder_below_a_root() {
    let f = |r: &str, p: &str| path_first_dir_below(&v(r), &v(p)).map(|d| s(&d));
    assert_eq!(f("/w", "/w/Anime/x.png"), Some("Anime".to_string()));
    assert_eq!(f("/w", "/w/Anime/deep/x.png"), Some("Anime".to_string()));
    assert_eq!(f("/w", "/w/x.png"), None);
    assert_eq!(f("/w", "/v/A/x.png"), None);
    assert_eq!(f("/w", "w/A/x.png"), None);
    assert_eq!(f("", "A/x.png"), Some("A".to_string()));
    assert_eq!(f("w", "./w/A/x.png"), None);
    assert_eq!(f("C:\\w", "c:/w/A/x.png"), Some("A".to_string()));
    assert_eq!(f("c:/W", "C:\\w\\A\\x.png"), None);
    assert_eq!(f("/w", "/w/A/"), None);
    assert_eq!(f("/", "/A/x.png"), Some("A".to_string()));
}

#[test]
fn joining_adds_the_separator_only_where_needed() {
    assert_eq!(s(&join_with_separator(&v("dir"), &v("x.jpg"), '/')), "dir/x.jpg");
    assert_eq!(s(&join_with_separator(&v("dir/"), &v("x.jpg"), '\\')), "dir/x.jpg");
    assert_eq!(s(&join_with_separator(&v(""), &v("x.jpg"), '/')), "x.jpg");
    assert_eq!(s(&join_with_separator(&v("C:\\d"), &v("x"), '\\')), "C:\\d\\x");
    assert_eq!(s(&join_with_separator(&v("C:"), &v("x"), '\\')), "C:x");
}

#[test]
fn a_joined_name_is_the_file_name_again() {
    for dir in ["", "/", "C:", "C:\\cache", "cache/", "c"] {
        let j = join_with_separator(&v(dir), &v("v0123.jpg"), '\\');
        assert_eq!(path_file_name(&j).map(|n| s(&n)), Some("v0123.jpg".to_string()), "{}", dir);
    }
}

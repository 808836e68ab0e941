use rexpaper::text::{
    append_chars, append_str, chars_equal, chars_less, chars_of, contains_chars, decimal_chars,
    hex_chars, is_whitespace, lowercase_chars, str_equal, to_owned_string, trim_chars,
};

fn v(s: &str) -> Vec<char> {
    s.chars().collect()
}

fn s(v: &[char]) -> String {
    v.iter().collect()
}

#[test]
fn chars_of_keeps_every_character() {
    assert_eq!(chars_of("héllo wörld"), v("héllo wörld"));
    assert_eq!(chars_of(""), Vec::<char>::new());
    assert_eq!(to_owned_string("abc"), "abc");
}

#[test]
fn equality_of_strings() {
    assert!(str_equal("Anime", "Anime"));
    assert!(!str_equal("Anime", "anime"));
    assert!(!str_equal("Anime", "Anim"));
    assert!(chars_equal(&v(""), &v("")));
}

#[test]
fn substring_search() {
    assert!(contains_chars(&v("waterfall"), &v("fall")));
    assert!(contains_chars(&v("waterfall"), &v("")));
    assert!(contains_chars(&v("waterfall"), &v("waterfall")));
    assert!(!contains_chars(&v("waterfall"), &v("waterfalls")));
    assert!(!contains_chars(&v("water"), &v("tre")));
    assert!(contains_chars(&v("aaab"), &v("aab")));
}

#[test]
fn code_point_order_matches_string_order() {
    let words = ["All", "Anime", "anime", "Zoo", "", "Ä", "Al", "b"];
    for a in words.iter() {
        for b in words.iter() {
            assert_eq!(chars_less(&v(a), &v(b)), a < b, "{} < {}", a, b);
        }
    }
}

#[test]
fn trimming_removes_unicode_whitespace_at_both_ends() {
    assert_eq!(s(&trim_chars(&v("  water fall \t\n"))), "water fall");
    assert_eq!(s(&trim_chars(&v("\u{3000}x\u{a0}"))), "x");
    assert_eq!(s(&trim_chars(&v("   "))), "");
    assert_eq!(s(&trim_chars(&v(""))), "");
    assert_eq!(s(&trim_chars(&v("abc"))), "abc");
}

#[test]
fn lower_casing_follows_unicode() {
    assert_eq!(s(&lowercase_chars(&v("WaTeRFALL"))), "waterfall");
    assert_eq!(s(&lowercase_chars(&v("ÄÖÜ"))), "äöü");
    assert_eq!(s(&lowercase_chars(&v("ΟΔΟΣ"))), "ΟΔΟΣ".to_lowercase());
    assert_eq!(s(&lowercase_chars(&v(""))), "");
    assert_eq!(s(&lowercase_chars(&v("AZ az @[`{ 09"))), "az az @[`{ 09");
    for c in (0u8..128).map(char::from) {
        assert_eq!(lowercase_chars(&vec![c]), vec![c.to_ascii_lowercase()]);
    }
}

#[test]
fn whitespace_is_what_std_calls_whitespace() {
    for c in (0u32..=0x10ffff).filter_map(char::from_u32) {
        assert_eq!(is_whitespace(c), c.is_whitespace(), "{:?}", c);
    }
}

#[test]
fn number_formatting() {
    for n in [0u64, 7, 10, 99, 100, 65535, u64::MAX] {
        assert_eq!(s(&decimal_chars(n)), format!("{}", n));
        assert_eq!(s(&hex_chars(n, 16)), format!("{:016x}", n));
    }
    assert_eq!(s(&hex_chars(0xabc, 2)), "bc");
    assert_eq!(s(&hex_chars(0xabc, 0)), "");
}

#[test]
fn appending() {
    let mut a = v("ab");
    append_chars(&mut a, &v("cd"));
    append_str(&mut a, "é");
    assert_eq!(s(&a), "abcdé");
}

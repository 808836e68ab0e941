//! The wallpaper library: items, their categories, and the queries the
//! gallery makes of them.
use vstd::prelude::*;
use crate::paths::file_stem;
use crate::text::{
    all_ascii, ascii_lowercase, ascii_uppercase, lemma_lowercase_of_uppercase, lemma_trimmed_ascii,
    lemma_trimmed_padded, lemma_trimmed_uppercase,
    chars_less, chars_of, contains_chars, contains_seq,
    lemma_seq_less_irreflexive, lemma_seq_less_total, lemma_seq_less_transitive, lowercase_chars,
    seq_less, spec_to_lowercase, string_views, to_owned_string, trim_chars, trimmed,
};

verus! {

/// What the library knows of a wallpaper: the path of its file and the
/// category it was filed under.
pub struct ItemView {
    pub path: Seq<char>,
    pub category: Seq<char>,
}

/// A static (image) wallpaper.
pub struct WallpaperItem {
    pub path: String,
    pub category: String,
}

/// A live (video) wallpaper.
pub struct LiveWallpaperItem {
    pub path: String,
    pub category: String,
}

impl View for WallpaperItem {
    type V = ItemView;

    open spec fn view(&self) -> ItemView {
        ItemView { path: self.path@, category: self.category@ }
    }
}

impl View for LiveWallpaperItem {
    type V = ItemView;

    open spec fn view(&self) -> ItemView {
        ItemView { path: self.path@, category: self.category@ }
    }
}

impl WallpaperItem {
    /// A copy of this item.
    pub fn copy(&self) -> (r: Self)
        ensures
            r@ == self@,
    {
        WallpaperItem { path: self.path.clone(), category: self.category.clone() }
    }
}

impl LiveWallpaperItem {
    /// A copy of this item.
    pub fn copy(&self) -> (r: Self)
        ensures
            r@ == self@,
    {
        LiveWallpaperItem { path: self.path.clone(), category: self.category.clone() }
    }
}

/// The views of a sequence of static wallpapers.
pub open spec fn static_views(v: Seq<WallpaperItem>) -> Seq<ItemView> {
    v.map_values(|w: WallpaperItem| w@)
}

/// The views of a sequence of live wallpapers.
pub open spec fn live_views(v: Seq<LiveWallpaperItem>) -> Seq<ItemView> {
    v.map_values(|w: LiveWallpaperItem| w@)
}

/// The state of the gallery: the wallpapers found and their categories.
pub struct AppState {
    pub static_wallpapers: Vec<WallpaperItem>,
    pub live_wallpapers: Vec<LiveWallpaperItem>,
    pub categories: Vec<String>,
    pub live_categories: Vec<String>,
    pub active_category: String,
    pub active_live_category: String,
}

/// The abstract gallery state.
pub struct AppStateView {
    pub static_wallpapers: Seq<ItemView>,
    pub live_wallpapers: Seq<ItemView>,
    pub categories: Seq<Seq<char>>,
    pub live_categories: Seq<Seq<char>>,
    pub active_category: Seq<char>,
    pub active_live_category: Seq<char>,
}

impl View for AppState {
    type V = AppStateView;

    open spec fn view(&self) -> AppStateView {
        AppStateView {
            static_wallpapers: static_views(self.static_wallpapers@),
            live_wallpapers: live_views(self.live_wallpapers@),
            categories: string_views(self.categories@),
            live_categories: string_views(self.live_categories@),
            active_category: self.active_category@,
            active_live_category: self.active_live_category@,
        }
    }
}

/// `cats` with `c` added at the end, unless it is already there.
pub open spec fn with_category(cats: Seq<Seq<char>>, c: Seq<char>) -> Seq<Seq<char>> {
    if cats.contains(c) {
        cats
    } else {
        cats.push(c)
    }
}

/// The categories listed are distinct and every item's category is listed.
pub open spec fn categories_consistent(items: Seq<ItemView>, cats: Seq<Seq<char>>) -> bool {
    &&& cats.no_duplicates()
    &&& forall|i: int| 0 <= i < items.len() ==> cats.contains(#[trigger] items[i].category)
}

/// Every pair of entries is in strictly increasing code-point order.
pub open spec fn strictly_sorted(s: Seq<Seq<char>>) -> bool {
    forall|i: int, j: int| 0 <= i < j < s.len() ==> seq_less(#[trigger] s[i], #[trigger] s[j])
}

/// The category menu for `cats`: `"All"` and every category, sorted in
/// code-point order, each once.
pub open spec fn category_menu(cats: Seq<Seq<char>>, menu: Seq<Seq<char>>) -> bool {
    &&& strictly_sorted(menu)
    &&& menu.to_set() == cats.to_set().insert("All"@)
}

/// The lower-cased, trimmed search text.
pub open spec fn search_key(search: Seq<char>) -> Seq<char> {
    spec_to_lowercase(trimmed(search))
}

/// The search key of an ASCII search text: trimmed and lower-cased.
pub open spec fn ascii_search_key(search: Seq<char>) -> Seq<char> {
    ascii_lowercase(trimmed(search))
}

/// Whether an item is shown for the selected category and search key:
/// the category is `"All"` or the item's own, and the key is empty or
/// found in the lower-cased file stem or the lower-cased category.
pub open spec fn item_shown(item: ItemView, category: Seq<char>, key: Seq<char>) -> bool {
    &&& (category == "All"@ || item.category == category)
    &&& (key.len() == 0 || (match file_stem(item.path) {
        Some(st) => contains_seq(spec_to_lowercase(st), key),
        None => false,
    }) || contains_seq(spec_to_lowercase(item.category), key))
}

/// The items shown, in the order they are listed.
pub open spec fn shown_items(items: Seq<ItemView>, category: Seq<char>, key: Seq<char>) -> Seq<ItemView>
    decreases items.len(),
{
    if items.len() == 0 {
        seq![]
    } else {
        let prev = shown_items(items.drop_last(), category, key);
        if item_shown(items.last(), category, key) {
            prev.push(items.last())
        } else {
            prev
        }
    }
}

/// Whether `c` is among `cats`.
pub fn contains_string(cats: &Vec<String>, c: &String) -> (r: bool)
    ensures
        r == string_views(cats@).contains(c@),
{
    let mut i: usize = 0;
    while i < cats.len()
        invariant
            i <= cats.len(),
            forall|k: int| 0 <= k < i ==> string_views(cats@)[k] != c@,
        decreases cats.len() - i,
    {
        if cats[i] == *c {
            assert(string_views(cats@)[i as int] == c@);
            return true;
        }
        i = i + 1;
    }
    false
}

/// Adds `c` to `cats` unless it is already listed.
fn add_category(cats: &mut Vec<String>, c: &String)
    ensures
        string_views(final(cats)@) == with_category(string_views(old(cats)@), c@),
{
    if !contains_string(cats, c) {
        let ghost before = cats@;
        cats.push(c.clone());
        assert(string_views(cats@) =~= string_views(before).push(c@));
    }
}

/// Pushing a category that is already listed, or a new one, keeps the
/// list free of duplicates.
proof fn lemma_with_category_keeps_distinct(cats: Seq<Seq<char>>, c: Seq<char>)
    requires
        cats.no_duplicates(),
    ensures
        with_category(cats, c).no_duplicates(),
        with_category(cats, c).contains(c),
        forall|x: Seq<char>| cats.contains(x) ==> with_category(cats, c).contains(x),
{
    if !cats.contains(c) {
        let n = cats.push(c);
        assert(n[cats.len() as int] == c);
        assert forall|x: Seq<char>| cats.contains(x) implies n.contains(x) by {
            let k = choose|k: int| 0 <= k < cats.len() && cats[k] == x;
            assert(n[k] == x);
        }
    } else {
    }
}

/// Inserting `s` at a position that keeps the order keeps the sequence
/// strictly sorted, and adds exactly `s` to what it holds.
proof fn lemma_insert_sorted(v: Seq<Seq<char>>, i: int, s: Seq<char>)
    requires
        strictly_sorted(v),
        0 <= i <= v.len(),
        forall|k: int| 0 <= k < i ==> seq_less(#[trigger] v[k], s),
        i < v.len() ==> seq_less(s, v[i]),
    ensures
        strictly_sorted(v.insert(i, s)),
        v.insert(i, s).to_set() == v.to_set().insert(s),
{
    let n = v.insert(i, s);
    assert forall|a: int, b: int| 0 <= a < b < n.len() implies seq_less(#[trigger] n[a], #[trigger] n[b]) by {
        if b < i {
        } else if b == i {
        } else if a < i {
            assert(n[b] == v[b - 1]);
        } else if a == i {
            assert(n[b] == v[b - 1]);
            if b - 1 > i {
                lemma_seq_less_transitive(s, v[i], v[b - 1]);
            }
        } else {
            assert(n[a] == v[a - 1]);
            assert(n[b] == v[b - 1]);
        }
    }
    assert forall|x: Seq<char>| #[trigger] n.to_set().contains(x) <==> v.to_set().insert(s).contains(x) by {
        if n.contains(x) {
            let k = choose|k: int| 0 <= k < n.len() && n[k] == x;
            if k < i {
                assert(v[k] == x);
            } else if k > i {
                assert(v[k - 1] == x);
            }
        }
        if v.contains(x) {
            let k = choose|k: int| 0 <= k < v.len() && v[k] == x;
            if k < i {
                assert(n[k] == x);
            } else {
                assert(n[k + 1] == x);
            }
        }
        if x == s {
            assert(n[i] == x);
        }
    }
    assert(n.to_set() =~= v.to_set().insert(s));
}

/// Inserts `s` into the strictly sorted `v`, unless it is there already.
fn insert_sorted(v: &mut Vec<String>, s: &String)
    requires
        strictly_sorted(string_views(old(v)@)),
    ensures
        strictly_sorted(string_views(final(v)@)),
        string_views(final(v)@).to_set() == string_views(old(v)@).to_set().insert(s@),
{
    let sc = chars_of(s.as_str());
    let ghost old_v = string_views(v@);
    assert(old_v == string_views(old(v)@));
    let mut i: usize = 0;
    let mut stop = false;
    while i < v.len() && !stop
        invariant
            i <= v.len(),
            old_v == string_views(v@),
            sc@ == s@,
            stop ==> i < v.len() && !seq_less(old_v[i as int], s@),
            forall|k: int| 0 <= k < i ==> seq_less(#[trigger] old_v[k], s@),
        decreases v.len() - i + (if stop { 0int } else { 1int }),
    {
        let vc = chars_of(v[i].as_str());
        assert(old_v[i as int] == vc@);
        if !chars_less(&vc, &sc) {
            stop = true;
        } else {
            i = i + 1;
        }
    }
    if i < v.len() && v[i] == *s {
        assert(old_v[i as int] == s@);
        assert(old_v.to_set().contains(s@));
        assert(old_v.to_set().insert(s@) =~= old_v.to_set());
        return;
    }
    if i < v.len() {
        assert(old_v[i as int] != s@);
        proof {
            lemma_seq_less_total(old_v[i as int], s@);
        }
    }
    proof {
        lemma_insert_sorted(old_v, i as int, s@);
    }
    v.insert(i, s.clone());
    assert(string_views(v@) =~= old_v.insert(i as int, s@));
}

/// The set of the first `i + 1` entries is that of the first `i` with
/// entry `i` added.
proof fn lemma_take_to_set_step(s: Seq<Seq<char>>, i: int)
    requires
        0 <= i < s.len(),
    ensures
        s.take(i + 1).to_set() == s.take(i).to_set().insert(s[i]),
{
    let a = s.take(i + 1);
    let b = s.take(i);
    assert forall|x: Seq<char>| #[trigger] a.to_set().contains(x) <==> b.to_set().insert(s[i]).contains(x) by {
        if a.contains(x) {
            let k = choose|k: int| 0 <= k < a.len() && a[k] == x;
            if k < i {
                assert(b[k] == x);
            }
        }
        if b.contains(x) {
            let k = choose|k: int| 0 <= k < b.len() && b[k] == x;
            assert(a[k] == x);
        }
        if x == s[i] {
            assert(a[i] == x);
        }
    }
    assert(a.to_set() =~= b.to_set().insert(s[i]));
}

/// The category menu of `cats`: `"All"` and each category once, sorted.
fn category_menu_of(cats: &Vec<String>) -> (r: Vec<String>)
    ensures
        category_menu(string_views(cats@), string_views(r@)),
{
    let mut r: Vec<String> = Vec::new();
    let all = to_owned_string("All");
    r.push(all);
    let ghost cv = string_views(cats@);
    assert(string_views(r@) =~= seq!["All"@]);
    assert(cv.take(0) =~= Seq::<Seq<char>>::empty());
    assert(string_views(r@).to_set() =~= cv.take(0).to_set().insert("All"@)) by {
        assert forall|x: Seq<char>| #[trigger] string_views(r@).to_set().contains(x) <==> cv.take(0).to_set().insert("All"@).contains(x) by {
            if x == "All"@ {
                assert(string_views(r@)[0] == x);
            }
        }
    }
    let mut i: usize = 0;
    while i < cats.len()
        invariant
            i <= cats.len(),
            cv == string_views(cats@),
            strictly_sorted(string_views(r@)),
            string_views(r@).to_set() == cv.take(i as int).to_set().insert("All"@),
        decreases cats.len() - i,
    {
        insert_sorted(&mut r, &cats[i]);
        proof {
            lemma_take_to_set_step(cv, i as int);
            assert(cv[i as int] == cats@[i as int]@);
            assert(string_views(r@).to_set() =~= cv.take(i + 1).to_set().insert("All"@));
        }
        i = i + 1;
    }
    assert(cv.take(cats.len() as int) =~= cv);
    r
}

/// Whether an item with this path and category is shown for the category
/// `cat` (with `is_all` telling whether `cat` is `"All"`) and search key.
fn item_shown_exec(path: &String, item_cat: &String, cat: &Vec<char>, is_all: bool, key: &Vec<char>) -> (r: bool)
    requires
        is_all == (cat@ == "All"@),
    ensures
        r == item_shown(ItemView { path: path@, category: item_cat@ }, cat@, key@),
{
    let ic = chars_of(item_cat.as_str());
    let matches_cat = is_all || crate::text::chars_equal(&ic, cat);
    if !matches_cat {
        return false;
    }
    if key.len() == 0 {
        return true;
    }
    let pc = chars_of(path.as_str());
    let in_stem = match crate::paths::path_stem_and_extension(&pc) {
        Some(p) => {
            let low = lowercase_chars(&p.0);
            contains_chars(&low, key)
        },
        None => false,
    };
    if in_stem {
        return true;
    }
    let low_cat = lowercase_chars(&ic);
    contains_chars(&low_cat, key)
}

impl Default for AppState {
    /// An empty gallery state.
    fn default() -> (r: Self)
        ensures
            r@.static_wallpapers.len() == 0,
            r@.live_wallpapers.len() == 0,
            r@.categories.len() == 0,
            r@.live_categories.len() == 0,
            r@.active_category.len() == 0,
            r@.active_live_category.len() == 0,
    {
        AppState::new()
    }
}

impl AppState {
    /// An empty gallery state.
    pub fn new() -> (r: Self)
        ensures
            r@.static_wallpapers.len() == 0,
            r@.live_wallpapers.len() == 0,
            r@.categories.len() == 0,
            r@.live_categories.len() == 0,
            r@.active_category.len() == 0,
            r@.active_live_category.len() == 0,
    {
        AppState {
            static_wallpapers: Vec::new(),
            live_wallpapers: Vec::new(),
            categories: Vec::new(),
            live_categories: Vec::new(),
            active_category: String::new(),
            active_live_category: String::new(),
        }
    }

    /// Adds a static wallpaper at the end, and its category to the static
    /// categories unless it is already listed.
    pub fn add_static_wallpaper(&mut self, item: WallpaperItem)
        ensures
            final(self)@.static_wallpapers == old(self)@.static_wallpapers.push(item@),
            final(self)@.categories == with_category(old(self)@.categories, item@.category),
            final(self)@.live_wallpapers == old(self)@.live_wallpapers,
            final(self)@.live_categories == old(self)@.live_categories,
            final(self)@.active_category == old(self)@.active_category,
            final(self)@.active_live_category == old(self)@.active_live_category,
    {
        add_category(&mut self.categories, &item.category);
        let ghost before = self.static_wallpapers@;
        self.static_wallpapers.push(item);
        assert(static_views(self.static_wallpapers@) =~= static_views(before).push(item@));
    }

    /// Adds a live wallpaper at the end, and its category to the live
    /// categories unless it is already listed.
    pub fn add_live_wallpaper(&mut self, item: LiveWallpaperItem)
        ensures
            final(self)@.live_wallpapers == old(self)@.live_wallpapers.push(item@),
            final(self)@.live_categories == with_category(old(self)@.live_categories, item@.category),
            final(self)@.static_wallpapers == old(self)@.static_wallpapers,
            final(self)@.categories == old(self)@.categories,
            final(self)@.active_category == old(self)@.active_category,
            final(self)@.active_live_category == old(self)@.active_live_category,
    {
        add_category(&mut self.live_categories, &item.category);
        let ghost before = self.live_wallpapers@;
        self.live_wallpapers.push(item);
        assert(live_views(self.live_wallpapers@) =~= live_views(before).push(item@));
    }

    /// `"All"` and the static categories, sorted by code point, each once.
    pub fn get_categories(&self) -> (r: Vec<String>)
        ensures
            category_menu(self@.categories, string_views(r@)),
    {
        category_menu_of(&self.categories)
    }

    /// `"All"` and the live categories, sorted by code point, each once.
    pub fn get_live_categories(&self) -> (r: Vec<String>)
        ensures
            category_menu(self@.live_categories, string_views(r@)),
    {
        category_menu_of(&self.live_categories)
    }

    /// The static wallpapers shown for a category and a search text, in
    /// their order.
    pub fn filter_static(&self, category: &str, search: &str) -> (r: Vec<WallpaperItem>)
        ensures
            static_views(r@) == shown_items(self@.static_wallpapers, category@, search_key(search@)),
            all_ascii(search@) ==> static_views(r@) == shown_items(
                self@.static_wallpapers,
                category@,
                ascii_search_key(search@),
            ),
            category@ == "All"@ && trimmed(search@).len() == 0 ==> static_views(r@) == self@.static_wallpapers,
    {
        let key = lowercase_chars(&trim_chars(&chars_of(search)));
        proof {
            if all_ascii(search@) {
                lemma_trimmed_ascii(search@);
            }
            if trimmed(search@).len() == 0 {
                law_all_with_empty_search_shows_everything(self@.static_wallpapers, key@);
            }
        }
        let cat = chars_of(category);
        let all = chars_of("All");
        let is_all = crate::text::chars_equal(&cat, &all);
        let ghost items = self@.static_wallpapers;
        let mut r: Vec<WallpaperItem> = Vec::new();
        let mut i: usize = 0;
        assert(items.take(0) =~= Seq::<ItemView>::empty());
        while i < self.static_wallpapers.len()
            invariant
                i <= self.static_wallpapers.len(),
                items == self@.static_wallpapers,
                is_all == (cat@ == "All"@),
                static_views(r@) == shown_items(items.take(i as int), cat@, key@),
            decreases self.static_wallpapers.len() - i,
        {
            let w = &self.static_wallpapers[i];
            assert(items.take(i + 1).drop_last() =~= items.take(i as int));
            assert(items.take(i + 1).last() == w@);
            if item_shown_exec(&w.path, &w.category, &cat, is_all, &key) {
                let ghost before = r@;
                r.push(w.copy());
                assert(static_views(r@) =~= static_views(before).push(w@));
            }
            i = i + 1;
        }
        assert(items.take(self.static_wallpapers.len() as int) =~= items);
        r
    }

    /// The live wallpapers shown for a category and a search text, in
    /// their order.
    pub fn filter_live(&self, category: &str, search: &str) -> (r: Vec<LiveWallpaperItem>)
        ensures
            live_views(r@) == shown_items(self@.live_wallpapers, category@, search_key(search@)),
            all_ascii(search@) ==> live_views(r@) == shown_items(
                self@.live_wallpapers,
                category@,
                ascii_search_key(search@),
            ),
            category@ == "All"@ && trimmed(search@).len() == 0 ==> live_views(r@) == self@.live_wallpapers,
    {
        let key = lowercase_chars(&trim_chars(&chars_of(search)));
        proof {
            if all_ascii(search@) {
                lemma_trimmed_ascii(search@);
            }
            if trimmed(search@).len() == 0 {
                law_all_with_empty_search_shows_everything(self@.live_wallpapers, key@);
            }
        }
        let cat = chars_of(category);
        let all = chars_of("All");
        let is_all = crate::text::chars_equal(&cat, &all);
        let ghost items = self@.live_wallpapers;
        let mut r: Vec<LiveWallpaperItem> = Vec::new();
        let mut i: usize = 0;
        assert(items.take(0) =~= Seq::<ItemView>::empty());
        while i < self.live_wallpapers.len()
            invariant
                i <= self.live_wallpapers.len(),
                items == self@.live_wallpapers,
                is_all == (cat@ == "All"@),
                live_views(r@) == shown_items(items.take(i as int), cat@, key@),
            decreases self.live_wallpapers.len() - i,
        {
            let w = &self.live_wallpapers[i];
            assert(items.take(i + 1).drop_last() =~= items.take(i as int));
            assert(items.take(i + 1).last() == w@);
            if item_shown_exec(&w.path, &w.category, &cat, is_all, &key) {
                let ghost before = r@;
                r.push(w.copy());
                assert(live_views(r@) =~= live_views(before).push(w@));
            }
            i = i + 1;
        }
        assert(items.take(self.live_wallpapers.len() as int) =~= items);
        r
    }
}

/// Adding a wallpaper keeps the categories consistent with the
/// wallpapers: still listed once each, and the new wallpaper's category is
/// listed.
pub proof fn law_add_keeps_categories_consistent(items: Seq<ItemView>, cats: Seq<Seq<char>>, item: ItemView)
    requires
        categories_consistent(items, cats),
    ensures
        categories_consistent(items.push(item), with_category(cats, item.category)),
{
    lemma_with_category_keeps_distinct(cats, item.category);
    let n = items.push(item);
    let c = with_category(cats, item.category);
    assert forall|i: int| 0 <= i < n.len() implies c.contains(#[trigger] n[i].category) by {
        if i < items.len() {
            assert(n[i] == items[i]);
            assert(cats.contains(items[i].category));
        }
    }
}

/// The category menu starts from `"All"` and holds every category, each
/// entry once.
pub proof fn law_menu_lists_all_and_every_category(cats: Seq<Seq<char>>, menu: Seq<Seq<char>>)
    requires
        category_menu(cats, menu),
    ensures
        menu.contains("All"@),
        forall|c: Seq<char>| cats.contains(c) ==> menu.contains(c),
        menu.no_duplicates(),
{
    assert(menu.to_set().contains("All"@));
    assert forall|c: Seq<char>| cats.contains(c) implies menu.contains(c) by {
        assert(cats.to_set().contains(c));
        assert(menu.to_set().contains(c));
    }
    assert forall|i: int, j: int| 0 <= i < menu.len() && 0 <= j < menu.len() && i != j implies menu[i] != menu[j] by {
        if i < j {
            lemma_seq_less_irreflexive(menu[i]);
            assert(seq_less(menu[i], menu[j]));
        } else {
            lemma_seq_less_irreflexive(menu[j]);
            assert(seq_less(menu[j], menu[i]));
        }
    }
}

/// The items shown are items of the library, each of which passes the
/// category and search tests, and there are never more of them than items.
pub proof fn law_shown_items_pass_the_filter(items: Seq<ItemView>, category: Seq<char>, key: Seq<char>)
    ensures
        shown_items(items, category, key).len() <= items.len(),
        forall|i: int|
            0 <= i < shown_items(items, category, key).len() ==> item_shown(
                #[trigger] shown_items(items, category, key)[i],
                category,
                key,
            ) && items.contains(shown_items(items, category, key)[i]),
    decreases items.len(),
{
    if items.len() > 0 {
        let prev = items.drop_last();
        law_shown_items_pass_the_filter(prev, category, key);
        let s = shown_items(items, category, key);
        let sp = shown_items(prev, category, key);
        assert forall|i: int| 0 <= i < s.len() implies item_shown(#[trigger] s[i], category, key) && items.contains(s[i]) by {
            if i < sp.len() {
                assert(s[i] == sp[i]);
                let k = choose|k: int| 0 <= k < prev.len() && prev[k] == sp[i];
                assert(items[k] == s[i]);
            } else {
                assert(s[i] == items.last());
                assert(items[items.len() - 1] == s[i]);
            }
        }
    }
}

/// Every item passes the test of category `"All"` with an empty search:
/// nothing is hidden then.
pub proof fn law_all_with_empty_search_shows_everything(items: Seq<ItemView>, key: Seq<char>)
    requires
        key.len() == 0,
    ensures
        shown_items(items, "All"@, key) == items,
    decreases items.len(),
{
    if items.len() > 0 {
        law_all_with_empty_search_shows_everything(items.drop_last(), key);
        assert(items.drop_last().push(items.last()) =~= items);
    }
}

/// The items shown for a category are those shown for `"All"` that belong
/// to the category, in the same order: choosing a category narrows the
/// `"All"` view and never brings in another item.
pub proof fn law_category_view_narrows_the_all_view(items: Seq<ItemView>, category: Seq<char>, key: Seq<char>)
    ensures
        shown_items(items, category, key) == shown_items(shown_items(items, "All"@, key), category, key),
    decreases items.len(),
{
    if items.len() > 0 {
        let prev = items.drop_last();
        let x = items.last();
        law_category_view_narrows_the_all_view(prev, category, key);
        let all_prev = shown_items(prev, "All"@, key);
        if item_shown(x, "All"@, key) {
            assert(all_prev.push(x).drop_last() =~= all_prev);
            assert(all_prev.push(x).last() == x);
        }
    }
}

/// The search ignores the case of ASCII letters and the whitespace around
/// it: an ASCII search text and the same text in upper case with spaces
/// around it have the same key, so they show the same items.
pub proof fn law_search_ignores_case_and_surrounding_spaces(items: Seq<ItemView>, category: Seq<char>, search: Seq<char>)
    requires
        all_ascii(search),
    ensures
        all_ascii(seq![' '] + ascii_uppercase(search) + seq![' ']),
        ascii_search_key(seq![' '] + ascii_uppercase(search) + seq![' ']) == ascii_search_key(search),
        shown_items(items, category, ascii_search_key(seq![' '] + ascii_uppercase(search) + seq![' ']))
            == shown_items(items, category, ascii_search_key(search)),
{
    let u = ascii_uppercase(search);
    let p = seq![' '] + u + seq![' '];
    assert forall|i: int| 0 <= i < p.len() implies #[trigger] p[i] <= '\u{7f}' by {
        if 1 <= i < p.len() - 1 {
            assert(p[i] == u[i - 1]);
            assert(search[i - 1] <= '\u{7f}');
        }
    }
    lemma_trimmed_padded(u);
    lemma_trimmed_uppercase(search);
    lemma_lowercase_of_uppercase(trimmed(search));
}

/// An item that `shown_items` lets through is in the result.
proof fn lemma_shown_contains(items: Seq<ItemView>, category: Seq<char>, key: Seq<char>, k: int)
    requires
        0 <= k < items.len(),
        item_shown(items[k], category, key),
    ensures
        shown_items(items, category, key).contains(items[k]),
    decreases items.len(),
{
    let prev = items.drop_last();
    let sp = shown_items(prev, category, key);
    if k == items.len() - 1 {
        assert(shown_items(items, category, key) == sp.push(items[k]));
        assert(sp.push(items[k])[sp.len() as int] == items[k]);
    } else {
        assert(prev[k] == items[k]);
        lemma_shown_contains(prev, category, key, k);
        let j = choose|j: int| 0 <= j < sp.len() && sp[j] == items[k];
        if item_shown(items.last(), category, key) {
            assert(sp.push(items.last())[j] == items[k]);
        }
    }
}

/// The search text is found anywhere in the file stem: an item of the
/// chosen category (or any item for `"All"`) whose lower-cased file stem
/// holds the search key at some position `i` is shown.
pub proof fn law_search_matches_anywhere_in_the_stem(
    items: Seq<ItemView>,
    category: Seq<char>,
    key: Seq<char>,
    k: int,
    i: int,
)
    requires
        0 <= k < items.len(),
        category == "All"@ || items[k].category == category,
        file_stem(items[k].path) is Some,
        0 <= i,
        i + key.len() <= spec_to_lowercase(file_stem(items[k].path).unwrap()).len(),
        spec_to_lowercase(file_stem(items[k].path).unwrap()).subrange(i, i + key.len()) == key,
    ensures
        shown_items(items, category, key).contains(items[k]),
{
    let low = spec_to_lowercase(file_stem(items[k].path).unwrap());
    assert(crate::text::occurs_at(low, key, i));
    lemma_shown_contains(items, category, key, k);
}

/// The search text is found anywhere in the category: an item of the
/// chosen category (or any item for `"All"`) whose lower-cased category
/// holds the search key at some position `i` is shown.
pub proof fn law_search_matches_anywhere_in_the_category(
    items: Seq<ItemView>,
    category: Seq<char>,
    key: Seq<char>,
    k: int,
    i: int,
)
    requires
        0 <= k < items.len(),
        category == "All"@ || items[k].category == category,
        0 <= i,
        i + key.len() <= spec_to_lowercase(items[k].category).len(),
        spec_to_lowercase(items[k].category).subrange(i, i + key.len()) == key,
    ensures
        shown_items(items, category, key).contains(items[k]),
{
    assert(crate::text::occurs_at(spec_to_lowercase(items[k].category), key, i));
    lemma_shown_contains(items, category, key, k);
}

/// An empty search key shows every item of the chosen category (every
/// item for `"All"`).
pub proof fn law_empty_search_shows_the_category(items: Seq<ItemView>, category: Seq<char>, k: int)
    requires
        0 <= k < items.len(),
        category == "All"@ || items[k].category == category,
    ensures
        shown_items(items, category, seq![]).contains(items[k]),
{
    lemma_shown_contains(items, category, seq![], k);
}

/// Only matching items are shown: each shown item is one of the items, of
/// the chosen category unless it is `"All"`, and the search key is empty or
/// held at some position by its lower-cased file stem or category.
pub proof fn law_shown_items_match_the_search(items: Seq<ItemView>, category: Seq<char>, key: Seq<char>, j: int)
    requires
        0 <= j < shown_items(items, category, key).len(),
    ensures
        ({
            let x = shown_items(items, category, key)[j];
            &&& items.contains(x)
            &&& category == "All"@ || x.category == category
            &&& key.len() == 0 || (exists|i: int|
                0 <= i && file_stem(x.path) is Some && i + key.len() <= spec_to_lowercase(
                    file_stem(x.path).unwrap(),
                ).len() && #[trigger] spec_to_lowercase(file_stem(x.path).unwrap()).subrange(
                    i,
                    i + key.len(),
                ) == key) || (exists|i: int|
                0 <= i && i + key.len() <= spec_to_lowercase(x.category).len()
                    && #[trigger] spec_to_lowercase(x.category).subrange(i, i + key.len()) == key)
        }),
{
    law_shown_items_pass_the_filter(items, category, key);
    let x = shown_items(items, category, key)[j];
    assert(item_shown(x, category, key));
}

} // verus!

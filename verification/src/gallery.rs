//! What the gallery pages show: the category menu, the cards of the
//! wallpapers shown, and those cards laid out in rows.
//!
//! Thumbnails are loaded by the caller for each card.
use vstd::prelude::*;
use crate::models::{
    category_menu, search_key, shown_items, static_views, live_views, AppState, ItemView,
    LiveWallpaperItem, WallpaperItem,
};
use crate::paths::{file_stem, path_stem_and_extension};
use crate::text::{chars_of, string_from_chars, string_views};

verus! {

/// The most cards a gallery page shows.
pub const MAX_GRID_ITEMS: usize = 250;

/// A card of the gallery, without its thumbnail.
pub struct WallpaperCard {
    /// The name shown: the file's stem.
    pub name: String,
    /// The wallpaper's category.
    pub category: String,
    /// Whether it is a live wallpaper.
    pub is_live: bool,
    /// The wallpaper's path.
    pub path: String,
}

/// The abstract card.
pub struct CardView {
    pub name: Seq<char>,
    pub category: Seq<char>,
    pub is_live: bool,
    pub path: Seq<char>,
}

impl View for WallpaperCard {
    type V = CardView;

    open spec fn view(&self) -> CardView {
        CardView { name: self.name@, category: self.category@, is_live: self.is_live, path: self.path@ }
    }
}

impl WallpaperCard {
    /// A copy of this card.
    pub fn copy(&self) -> (r: Self)
        ensures
            r@ == self@,
    {
        WallpaperCard {
            name: self.name.clone(),
            category: self.category.clone(),
            is_live: self.is_live,
            path: self.path.clone(),
        }
    }
}

/// The name shown for a wallpaper: its file's stem, or its category when
/// the path has no file name.
pub open spec fn display_name_spec(item: ItemView) -> Seq<char> {
    match file_stem(item.path) {
        Some(s) => s,
        None => item.category,
    }
}

/// The card of a wallpaper.
pub open spec fn card_of(item: ItemView, is_live: bool) -> CardView {
    CardView { name: display_name_spec(item), category: item.category, is_live, path: item.path }
}

/// The name shown for a wallpaper with this path and category.
pub fn display_name(path: &String, category: &String) -> (r: String)
    ensures
        r@ == display_name_spec(ItemView { path: path@, category: category@ }),
{
    let pc = chars_of(path.as_str());
    match path_stem_and_extension(&pc) {
        Some(p) => string_from_chars(&p.0),
        None => category.clone(),
    }
}

/// The card of a static wallpaper.
pub fn static_to_data(item: &WallpaperItem) -> (r: WallpaperCard)
    ensures
        r@ == card_of(item@, false),
{
    WallpaperCard {
        name: display_name(&item.path, &item.category),
        category: item.category.clone(),
        is_live: false,
        path: item.path.clone(),
    }
}

/// The card of a live wallpaper.
pub fn live_to_data(item: &LiveWallpaperItem) -> (r: WallpaperCard)
    ensures
        r@ == card_of(item@, true),
{
    WallpaperCard {
        name: display_name(&item.path, &item.category),
        category: item.category.clone(),
        is_live: true,
        path: item.path.clone(),
    }
}

/// The views of a sequence of cards.
pub open spec fn card_views(v: Seq<WallpaperCard>) -> Seq<CardView> {
    v.map_values(|c: WallpaperCard| c@)
}

/// The number of columns used for `cols`: at least one.
pub open spec fn column_count(cols: usize) -> int {
    if cols == 0 {
        1
    } else {
        cols as int
    }
}

/// `rows` lays out `items` in rows of `c` (the last one possibly shorter):
/// as many rows as needed, row `i` holding items `i * c` up to
/// `(i + 1) * c` or the end.
pub open spec fn rows_of(items: Seq<CardView>, c: int, rows: Seq<Seq<CardView>>) -> bool {
    &&& rows.len() == (items.len() + c - 1) / c
    &&& forall|i: int|
        0 <= i < rows.len() ==> #[trigger] rows[i] == items.subrange(
            i * c,
            if (i + 1) * c <= items.len() { (i + 1) * c } else { items.len() as int },
        )
}

/// Lays the cards out in rows of `cols` (at least one).
pub fn group_rows(items: &Vec<WallpaperCard>, cols: usize) -> (r: Vec<Vec<WallpaperCard>>)
    ensures
        rows_of(card_views(items@), column_count(cols), r@.map_values(|row: Vec<WallpaperCard>| card_views(row@))),
{
    let c: usize = if cols == 0 { 1 } else { cols };
    let ghost cv = card_views(items@);
    let ghost n = items.len() as int;
    let mut rows: Vec<Vec<WallpaperCard>> = Vec::new();
    let mut start: usize = 0;
    let mut row: Vec<WallpaperCard> = Vec::new();
    let mut k: usize = 0;
    assert(0 * (c as int) == 0);
    assert(card_views(row@) =~= cv.subrange(0, 0));
    while k < items.len()
        invariant
            c == column_count(cols),
            c >= 1,
            cv == card_views(items@),
            n == items.len(),
            k <= items.len(),
            start <= k,
            k - start < c,
            start == rows.len() * c,
            card_views(row@) == cv.subrange(start as int, k as int),
            forall|i: int|
                0 <= i < rows.len() ==> card_views(#[trigger] rows@[i]@) == cv.subrange(i * c, (i + 1) * c),
        decreases items.len() - k,
    {
        let ghost before = row@;
        let item = items[k].copy();
        assert(cv[k as int] == item@);
        row.push(item);
        assert(card_views(row@) =~= card_views(before).push(item@));
        assert(card_views(row@) =~= cv.subrange(start as int, k + 1));
        k = k + 1;
        if k - start == c {
            let ghost old_rows = rows@;
            let full = row;
            row = Vec::new();
            rows.push(full);
            assert(rows@[old_rows.len() as int] == full);
            assert forall|i: int| 0 <= i < rows.len() implies card_views(#[trigger] rows@[i]@) == cv.subrange(i * c, (i + 1) * c) by {
                if i < old_rows.len() {
                    assert(rows@[i] == old_rows[i]);
                } else {
                    assert(i * c == start);
                    assert((i + 1) * c == start + c) by (nonlinear_arith)
                        requires
                            i * c == start,
                    ;
                }
            }
            assert((rows.len() as int) * (c as int) == (old_rows.len() as int) * (c as int) + c) by (nonlinear_arith)
                requires
                    rows.len() == old_rows.len() + 1,
            ;
            start = k;
            assert(card_views(row@) =~= cv.subrange(start as int, k as int));
        }
    }
    let ghost full_rows = rows.len() as int;
    if k > start {
        let ghost old_rows = rows@;
        let last = row;
        rows.push(last);
        assert(rows@[old_rows.len() as int] == last);
    }
    proof {
        let views = rows@.map_values(|row: Vec<WallpaperCard>| card_views(row@));
        let ci = c as int;
        assert(n == full_rows * ci + (k - start));
        if k > start {
            assert((n + ci - 1) / ci == full_rows + 1) by (nonlinear_arith)
                requires
                    n == full_rows * ci + (k - start),
                    0 < k - start < ci,
                    full_rows >= 0,
            ;
        } else {
            assert((n + ci - 1) / ci == full_rows) by (nonlinear_arith)
                requires
                    n == full_rows * ci,
                    ci >= 1,
                    full_rows >= 0,
            ;
        }
        assert forall|i: int| 0 <= i < views.len() implies #[trigger] views[i] == cv.subrange(
            i * ci,
            if (i + 1) * ci <= n { (i + 1) * ci } else { n },
        ) by {
            if i < full_rows {
                assert((i + 1) * ci <= full_rows * ci) by (nonlinear_arith)
                    requires
                        i + 1 <= full_rows,
                        ci >= 1,
                ;
            } else {
                assert(i * ci == start);
                assert((i + 1) * ci > n) by (nonlinear_arith)
                    requires
                        i * ci == start,
                        n - start < ci,
                ;
            }
        }
    }
    rows
}

/// What a gallery page shows.
pub struct GalleryView {
    /// The category menu.
    pub categories: Vec<String>,
    /// The cards of the wallpapers shown (at most `MAX_GRID_ITEMS`).
    pub cards: Vec<WallpaperCard>,
    /// Those cards in rows.
    pub rows: Vec<Vec<WallpaperCard>>,
}

/// The first `MAX_GRID_ITEMS` of `items`, as cards.
pub open spec fn first_cards(items: Seq<ItemView>, is_live: bool) -> Seq<CardView> {
    let m = if items.len() <= MAX_GRID_ITEMS { items.len() as int } else { MAX_GRID_ITEMS as int };
    Seq::new(m as nat, |i: int| card_of(items[i], is_live))
}

/// `v` is the gallery page showing `shown` under the category menu of
/// `cats`, with `cols` columns.
pub open spec fn is_gallery(v: GalleryView, cats: Seq<Seq<char>>, shown: Seq<ItemView>, is_live: bool, cols: usize) -> bool {
    &&& category_menu(cats, string_views(v.categories@))
    &&& card_views(v.cards@) == first_cards(shown, is_live)
    &&& rows_of(card_views(v.cards@), column_count(cols), v.rows@.map_values(|row: Vec<WallpaperCard>| card_views(row@)))
}

/// The static gallery page for a category and a search text, with `cols`
/// columns.
pub fn static_gallery(state: &AppState, category: &str, search: &str, cols: usize) -> (r: GalleryView)
    ensures
        is_gallery(r, state@.categories, shown_items(state@.static_wallpapers, category@, search_key(search@)), false, cols),
{
    let categories = state.get_categories();
    let filtered = state.filter_static(category, search);
    let ghost shown = static_views(filtered@);
    let mut cards: Vec<WallpaperCard> = Vec::new();
    let mut i: usize = 0;
    while i < filtered.len() && i < MAX_GRID_ITEMS
        invariant
            i <= filtered.len(),
            i <= MAX_GRID_ITEMS,
            shown == static_views(filtered@),
            card_views(cards@) == Seq::new(i as nat, |j: int| card_of(shown[j], false)),
        decreases filtered.len() - i,
    {
        let card = static_to_data(&filtered[i]);
        let ghost before = cards@;
        assert(shown[i as int] == filtered@[i as int]@);
        cards.push(card);
        assert(card_views(cards@) =~= card_views(before).push(card_of(shown[i as int], false)));
        assert(card_views(cards@) =~= Seq::new((i + 1) as nat, |j: int| card_of(shown[j], false)));
        i = i + 1;
    }
    assert(card_views(cards@) =~= first_cards(shown, false));
    let rows = group_rows(&cards, cols);
    GalleryView { categories, cards, rows }
}

/// The live gallery page for a category and a search text, with `cols`
/// columns.
pub fn live_gallery(state: &AppState, category: &str, search: &str, cols: usize) -> (r: GalleryView)
    ensures
        is_gallery(r, state@.live_categories, shown_items(state@.live_wallpapers, category@, search_key(search@)), true, cols),
{
    let categories = state.get_live_categories();
    let filtered = state.filter_live(category, search);
    let ghost shown = live_views(filtered@);
    let mut cards: Vec<WallpaperCard> = Vec::new();
    let mut i: usize = 0;
    while i < filtered.len() && i < MAX_GRID_ITEMS
        invariant
            i <= filtered.len(),
            i <= MAX_GRID_ITEMS,
            shown == live_views(filtered@),
            card_views(cards@) == Seq::new(i as nat, |j: int| card_of(shown[j], true)),
        decreases filtered.len() - i,
    {
        let card = live_to_data(&filtered[i]);
        let ghost before = cards@;
        assert(shown[i as int] == filtered@[i as int]@);
        cards.push(card);
        assert(card_views(cards@) =~= card_views(before).push(card_of(shown[i as int], true)));
        assert(card_views(cards@) =~= Seq::new((i + 1) as nat, |j: int| card_of(shown[j], true)));
        i = i + 1;
    }
    assert(card_views(cards@) =~= first_cards(shown, true));
    let rows = group_rows(&cards, cols);
    GalleryView { categories, cards, rows }
}

/// Laid out in rows of `c`, every row holds between one and `c` cards,
/// and every row but the last holds exactly `c`.
pub proof fn law_rows_are_full_but_the_last(items: Seq<CardView>, c: int, rows: Seq<Seq<CardView>>)
    requires
        c >= 1,
        rows_of(items, c, rows),
    ensures
        forall|i: int|
            0 <= i < rows.len() ==> 1 <= (#[trigger] rows[i]).len() <= c && (i + 1 < rows.len()
                ==> rows[i].len() == c),
{
    let n = items.len() as int;
    assert forall|i: int| 0 <= i < rows.len() implies 1 <= (#[trigger] rows[i]).len() <= c && (i + 1
        < rows.len() ==> rows[i].len() == c) by {
        let q = (n + c - 1) / c;
        assert(rows.len() == q);
        assert(i * c < n) by (nonlinear_arith)
            requires
                0 <= i < q,
                q == (n + c - 1) / c,
                c >= 1,
                n >= 0,
        ;
        if i + 1 < rows.len() {
            assert((i + 1) * c <= n) by (nonlinear_arith)
                requires
                    0 <= i,
                    i + 1 < q,
                    q == (n + c - 1) / c,
                    c >= 1,
                    n >= 0,
            ;
        }
        assert(i * c >= 0) by (nonlinear_arith)
            requires
                i >= 0,
                c >= 1,
        ;
        assert((i + 1) * c == i * c + c) by (nonlinear_arith);
    }
}

/// The rows one after the other.
pub open spec fn flatten(rows: Seq<Seq<CardView>>) -> Seq<CardView>
    decreases rows.len(),
{
    if rows.len() == 0 {
        seq![]
    } else {
        flatten(rows.drop_last()) + rows.last()
    }
}

/// Read one after the other, the rows give back every card, in order.
pub proof fn law_rows_keep_every_card_in_order(items: Seq<CardView>, c: int, rows: Seq<Seq<CardView>>)
    requires
        c >= 1,
        rows_of(items, c, rows),
    ensures
        flatten(rows) == items,
{
    let n = items.len() as int;
    let q = rows.len() as int;
    assert forall|k: int| 0 <= k <= q implies #[trigger] flatten(rows.take(k)) == items.subrange(
        0,
        if k * c <= n { k * c } else { n },
    ) by {
        lemma_flatten_prefix(items, c, rows, k);
    }
    assert(rows.take(q) =~= rows);
    assert(q * c >= n) by (nonlinear_arith)
        requires
            q == (n + c - 1) / c,
            c >= 1,
            n >= 0,
    ;
    assert(flatten(rows.take(q)) == items.subrange(0, n));
    assert(items.subrange(0, n) =~= items);
}

/// The first `k` rows hold the first `k * c` cards (or all of them).
proof fn lemma_flatten_prefix(items: Seq<CardView>, c: int, rows: Seq<Seq<CardView>>, k: int)
    requires
        c >= 1,
        rows_of(items, c, rows),
        0 <= k <= rows.len(),
    ensures
        flatten(rows.take(k)) == items.subrange(0, if k * c <= items.len() { k * c } else { items.len() as int }),
    decreases k,
{
    let n = items.len() as int;
    if k == 0 {
        assert(rows.take(0) =~= Seq::<Seq<CardView>>::empty());
        assert(items.subrange(0, 0) =~= Seq::<CardView>::empty());
        assert(0 * c == 0);
    } else {
        lemma_flatten_prefix(items, c, rows, k - 1);
        assert(rows.take(k).drop_last() =~= rows.take(k - 1));
        assert(rows.take(k).last() == rows[k - 1]);
        let q = (n + c - 1) / c;
        assert((k - 1) * c < n) by (nonlinear_arith)
            requires
                1 <= k,
                k - 1 < q,
                q == (n + c - 1) / c,
                c >= 1,
                n >= 0,
        ;
        assert(k * c == (k - 1) * c + c) by (nonlinear_arith);
        let lo = (k - 1) * c;
        let hi = if k * c <= n { k * c } else { n };
        assert(rows[k - 1] == items.subrange(lo, hi));
        assert(items.subrange(0, lo) + items.subrange(lo, hi) =~= items.subrange(0, hi));
    }
}

} // verus!

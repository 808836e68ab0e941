//! A model of Windows file-system paths as character sequences, with the
//! operations the library needs: components, file name, stem, extension,
//! the first directory below a root, and joining.
//!
//! As on Windows, where the library runs, both `/` and `\` separate
//! components. A path may start with a drive (an ASCII letter and `:`),
//! then a root (a separator); the named components follow. Empty
//! components are dropped, and so are `.` components, except one that
//! starts a path without a root. Drives compare without regard to case.
//! Other Windows prefixes (`\\server\share`, `\\?\`) are read as ordinary
//! named components.
use vstd::prelude::*;
use crate::text::{append_chars, ascii_upper, char_range, char_vec_views, chars_equal};

verus! {

/// Whether `c` separates path components.
pub open spec fn is_sep(c: char) -> bool {
    c == '/' || c == '\\'
}

/// Whether `c` is an ASCII letter.
pub open spec fn is_ascii_letter(c: char) -> bool {
    ('a' <= c && c <= 'z') || ('A' <= c && c <= 'Z')
}

/// Whether the path starts with a drive: an ASCII letter and `:`.
pub open spec fn has_drive(s: Seq<char>) -> bool {
    s.len() >= 2 && is_ascii_letter(s[0]) && s[1] == ':'
}

/// The path without its drive.
pub open spec fn after_drive(s: Seq<char>) -> Seq<char> {
    if has_drive(s) {
        s.skip(2)
    } else {
        s
    }
}

/// Whether the path has a root: after its drive, it starts with a
/// separator.
pub open spec fn has_root(s: Seq<char>) -> bool {
    let r = after_drive(s);
    r.len() > 0 && is_sep(r[0])
}

/// Whether the component `cur` is kept: it is not empty, and it is not
/// `.` unless it comes before the first separator.
pub open spec fn keeps(cur: Seq<char>, first: bool) -> bool {
    cur.len() > 0 && (cur != seq!['.'] || first)
}

/// Adds the component `cur` to the completed ones if it is kept.
pub open spec fn flush(done: Seq<Seq<char>>, cur: Seq<char>, first: bool) -> Seq<Seq<char>> {
    if keeps(cur, first) {
        done.push(cur)
    } else {
        done
    }
}

/// Reading `s` left to right: the completed components, the component
/// being read, and whether a separator has been read.
pub open spec fn scan_path(s: Seq<char>) -> (Seq<Seq<char>>, Seq<char>, bool)
    decreases s.len(),
{
    if s.len() == 0 {
        (seq![], seq![], false)
    } else {
        let prev = scan_path(s.drop_last());
        if is_sep(s.last()) {
            (flush(prev.0, prev.1, !prev.2), seq![], true)
        } else {
            (prev.0, prev.1.push(s.last()), prev.2)
        }
    }
}

/// The named components of `s`, a path without a drive, in order.
pub open spec fn named_components(s: Seq<char>) -> Seq<Seq<char>> {
    let st = scan_path(s);
    flush(st.0, st.1, !st.2)
}

/// The drive and the root of a path, as components: the drive as
/// written, the root as `\`.
pub open spec fn prefix_components(s: Seq<char>) -> Seq<Seq<char>> {
    (if has_drive(s) { seq![s.take(2)] } else { seq![] })
        + (if has_root(s) { seq![seq!['\\']] } else { seq![] })
}

/// The components of the path `s`: its drive, its root, and its named
/// components.
pub open spec fn components(s: Seq<char>) -> Seq<Seq<char>> {
    prefix_components(s) + named_components(after_drive(s))
}

/// The components of `s` as they are compared: as `components`, with the
/// drive letter in upper case.
pub open spec fn component_keys(s: Seq<char>) -> Seq<Seq<char>> {
    (if has_drive(s) { seq![seq![ascii_upper(s[0]), ':']] } else { seq![] })
        + (if has_root(s) { seq![seq!['\\']] } else { seq![] })
        + named_components(after_drive(s))
}

/// The last component of the path, when it is a named one other than `.`
/// and `..`.
pub open spec fn file_name(s: Seq<char>) -> Option<Seq<char>> {
    let n = named_components(after_drive(s));
    if n.len() > 0 && n.last() != seq!['.'] && n.last() != seq!['.', '.'] {
        Some(n.last())
    } else {
        None
    }
}

/// The index of the last `.` in `s`, or -1.
pub open spec fn last_dot(s: Seq<char>) -> int
    decreases s.len(),
{
    if s.len() == 0 {
        -1
    } else if s.last() == '.' {
        s.len() - 1
    } else {
        last_dot(s.drop_last())
    }
}

/// The stem of a file name: the part before the last `.`, or the whole
/// name when it has no `.` past its first character.
pub open spec fn name_stem(name: Seq<char>) -> Seq<char> {
    let k = last_dot(name);
    if k <= 0 {
        name
    } else {
        name.take(k)
    }
}

/// The extension of a file name: the part after the last `.`, when that
/// `.` is not its first character.
pub open spec fn name_extension(name: Seq<char>) -> Option<Seq<char>> {
    let k = last_dot(name);
    if k <= 0 {
        None
    } else {
        Some(name.skip(k + 1))
    }
}

/// The stem of the path's file name.
pub open spec fn file_stem(s: Seq<char>) -> Option<Seq<char>> {
    match file_name(s) {
        Some(n) => Some(name_stem(n)),
        None => None,
    }
}

/// The extension of the path's file name.
pub open spec fn extension(s: Seq<char>) -> Option<Seq<char>> {
    match file_name(s) {
        Some(n) => name_extension(n),
        None => None,
    }
}

/// The first component of `file`'s parent below `root`: the file has a
/// parent (its last component is a named one), the components of `root`
/// begin those of the parent and are fewer, and the next one is returned.
pub open spec fn first_dir_below(root: Seq<char>, file: Seq<char>) -> Option<Seq<char>> {
    let parent = component_keys(file).drop_last();
    let rk = component_keys(root);
    if named_components(after_drive(file)).len() > 0 && rk.len() < parent.len()
        && parent.take(rk.len() as int) == rk {
        Some(components(file)[rk.len() as int])
    } else {
        None
    }
}

/// `name` appended to the directory `dir`, with `sep` between them unless
/// `dir` is empty, is a bare drive, or already ends with a separator.
pub open spec fn joined(dir: Seq<char>, name: Seq<char>, sep: char) -> Seq<char> {
    if dir.len() == 0 || is_sep(dir.last()) || (dir.len() == 2 && has_drive(dir)) {
        dir + name
    } else {
        dir + seq![sep] + name
    }
}

/// Reading a name without separators after a path that is empty or ends
/// with a separator: the name is the component being read, after the
/// components already completed.
proof fn lemma_scan_name_after(y: Seq<char>, name: Seq<char>, k: int)
    requires
        y.len() == 0 || is_sep(y.last()),
        0 <= k <= name.len(),
        forall|i: int| 0 <= i < name.len() ==> !is_sep(#[trigger] name[i]),
    ensures
        scan_path(y + name.take(k)) == (scan_path(y).0, name.take(k), y.len() > 0),
    decreases k,
{
    if k == 0 {
        assert(y + name.take(0) =~= y);
        if y.len() > 0 {
            assert(scan_path(y).1 == Seq::<char>::empty());
        }
    } else {
        lemma_scan_name_after(y, name, k - 1);
        let t = y + name.take(k);
        assert(t.drop_last() =~= y + name.take(k - 1));
        assert(t.last() == name[k - 1]);
        assert(name.take(k - 1).push(name[k - 1]) =~= name.take(k));
    }
}

/// A name without separators, other than `.` and `..`, joined to a
/// directory is the file name of the result (unless the directory is empty
/// and the name itself starts like a drive).
pub proof fn law_joined_file_name(dir: Seq<char>, name: Seq<char>, sep: char)
    requires
        is_sep(sep),
        name.len() > 0,
        name != seq!['.'],
        name != seq!['.', '.'],
        forall|i: int| 0 <= i < name.len() ==> !is_sep(#[trigger] name[i]),
        dir.len() > 0 || !has_drive(name),
    ensures
        file_name(joined(dir, name, sep)) == Some(name),
{
    let x = if dir.len() == 0 || is_sep(dir.last()) || (dir.len() == 2 && has_drive(dir)) {
        dir
    } else {
        dir + seq![sep]
    };
    let s = joined(dir, name, sep);
    assert(s =~= x + name);
    let y = if has_drive(s) { x.skip(2) } else { x };
    if has_drive(s) {
        if x.len() < 2 {
            if x.len() == 1 {
                assert(s[0] == x[0]);
            } else {
                assert(s =~= name);
            }
        }
        assert(x.len() >= 2);
        assert(s.skip(2) =~= x.skip(2) + name);
        if x.len() > 2 {
            assert(y.last() == x.last());
        }
    } else {
        if x.len() == 2 && has_drive(dir) && dir.len() == 2 {
            assert(s[0] == dir[0] && s[1] == dir[1]);
        }
    }
    assert(after_drive(s) =~= y + name);
    assert(y.len() == 0 || is_sep(y.last()));
    lemma_scan_name_after(y, name, name.len() as int);
    assert(name.take(name.len() as int) =~= name);
}

/// Whether `c` separates path components.
pub fn is_separator(c: char) -> (r: bool)
    ensures
        r == is_sep(c),
{
    c == '/' || c == '\\'
}

/// Whether `c` is an ASCII letter.
fn is_letter(c: char) -> (r: bool)
    ensures
        r == is_ascii_letter(c),
{
    ('a' <= c && c <= 'z') || ('A' <= c && c <= 'Z')
}

/// The ASCII upper-case form of `c`.
fn to_upper(c: char) -> (r: char)
    ensures
        r == ascii_upper(c),
{
    if 'a' <= c && c <= 'z' {
        let b: u8 = c as u8;
        ((b - 32) as char)
    } else {
        c
    }
}

/// Whether the path starts with a drive.
pub fn path_has_drive(s: &Vec<char>) -> (r: bool)
    ensures
        r == has_drive(s@),
{
    s.len() >= 2 && is_letter(s[0]) && s[1] == ':'
}

/// The path without its drive.
fn path_after_drive(s: &Vec<char>) -> (r: Vec<char>)
    ensures
        r@ == after_drive(s@),
{
    if path_has_drive(s) {
        let r = char_range(s, 2, s.len());
        assert(r@ =~= s@.skip(2));
        r
    } else {
        let r = char_range(s, 0, s.len());
        assert(r@ =~= s@);
        r
    }
}

/// Whether the path has a root.
pub fn path_has_root(s: &Vec<char>) -> (r: bool)
    ensures
        r == has_root(s@),
{
    let k: usize = if path_has_drive(s) { 2 } else { 0 };
    k < s.len() && is_separator(s[k])
}

/// Adds `cur` to `done` if it is kept.
fn flush_exec(done: &mut Vec<Vec<char>>, cur: Vec<char>, first: bool)
    ensures
        char_vec_views(final(done)@) == flush(char_vec_views(old(done)@), cur@, first),
{
    let is_dot = cur.len() == 1 && cur[0] == '.';
    if is_dot {
        assert(cur@ =~= seq!['.']);
    } else {
        assert(cur@ != seq!['.']) by {
            if cur@ == seq!['.'] {
                assert(cur@.len() == 1 && cur@[0] == '.');
            }
        }
    }
    if cur.len() > 0 && (!is_dot || first) {
        let ghost before = old(done)@;
        done.push(cur);
        assert(char_vec_views(done@) =~= char_vec_views(before).push(cur@));
    }
}

/// Appends the named components of `rest`, a path without a drive, to
/// `done`.
fn push_named_components(done: &mut Vec<Vec<char>>, rest: &Vec<char>)
    ensures
        char_vec_views(final(done)@) == char_vec_views(old(done)@) + named_components(rest@),
{
    let ghost pre = char_vec_views(done@);
    let mut cur: Vec<char> = Vec::new();
    let mut seen: bool = false;
    let mut i: usize = 0;
    assert(rest@.take(0) =~= Seq::<char>::empty());
    assert(char_vec_views(done@) =~= pre + Seq::<Seq<char>>::empty());
    while i < rest.len()
        invariant
            i <= rest.len(),
            char_vec_views(done@) == pre + scan_path(rest@.take(i as int)).0,
            cur@ == scan_path(rest@.take(i as int)).1,
            seen == scan_path(rest@.take(i as int)).2,
        decreases rest.len() - i,
    {
        let c = rest[i];
        let ghost st = scan_path(rest@.take(i as int));
        assert(rest@.take(i + 1).drop_last() =~= rest@.take(i as int));
        assert(rest@.take(i + 1).last() == c);
        if is_separator(c) {
            let finished = cur;
            cur = Vec::new();
            flush_exec(done, finished, !seen);
            assert(flush(pre + st.0, st.1, !st.2) =~= pre + flush(st.0, st.1, !st.2));
            seen = true;
        } else {
            cur.push(c);
        }
        i = i + 1;
    }
    assert(rest@.take(rest.len() as int) =~= rest@);
    let ghost st = scan_path(rest@);
    flush_exec(done, cur, !seen);
    assert(flush(pre + st.0, st.1, !st.2) =~= pre + flush(st.0, st.1, !st.2));
}

/// Appends the drive and the root of `s` to `done`; the drive letter in
/// upper case when `upper`.
fn push_prefix_components(done: &mut Vec<Vec<char>>, s: &Vec<char>, upper: bool)
    ensures
        char_vec_views(final(done)@) == char_vec_views(old(done)@)
            + (if has_drive(s@) {
                if upper { seq![seq![ascii_upper(s@[0]), ':']] } else { seq![s@.take(2)] }
            } else {
                seq![]
            })
            + (if has_root(s@) { seq![seq!['\\']] } else { seq![] }),
{
    let ghost pre = char_vec_views(done@);
    let drive = path_has_drive(s);
    if drive {
        let mut d: Vec<char> = Vec::new();
        if upper {
            d.push(to_upper(s[0]));
        } else {
            d.push(s[0]);
        }
        d.push(':');
        if !upper {
            assert(d@ =~= s@.take(2));
        } else {
            assert(d@ =~= seq![ascii_upper(s@[0]), ':']);
        }
        done.push(d);
    }
    let ghost mid = char_vec_views(done@);
    if path_has_root(s) {
        let mut r: Vec<char> = Vec::new();
        r.push('\\');
        assert(r@ =~= seq!['\\']);
        done.push(r);
        assert(char_vec_views(done@) =~= mid.push(seq!['\\']));
    }
    assert(char_vec_views(done@) =~= pre
        + (if has_drive(s@) {
            if upper { seq![seq![ascii_upper(s@[0]), ':']] } else { seq![s@.take(2)] }
        } else {
            seq![]
        })
        + (if has_root(s@) { seq![seq!['\\']] } else { seq![] }));
}

/// The components of the path `s`.
pub fn path_components(s: &Vec<char>) -> (r: Vec<Vec<char>>)
    ensures
        char_vec_views(r@) == components(s@),
{
    let mut r: Vec<Vec<char>> = Vec::new();
    assert(char_vec_views(r@) =~= Seq::<Seq<char>>::empty());
    push_prefix_components(&mut r, s, false);
    let rest = path_after_drive(s);
    push_named_components(&mut r, &rest);
    assert(char_vec_views(r@) =~= components(s@));
    r
}

/// The components of the path `s` as they are compared.
fn path_component_keys(s: &Vec<char>) -> (r: Vec<Vec<char>>)
    ensures
        char_vec_views(r@) == component_keys(s@),
{
    let mut r: Vec<Vec<char>> = Vec::new();
    assert(char_vec_views(r@) =~= Seq::<Seq<char>>::empty());
    push_prefix_components(&mut r, s, true);
    let rest = path_after_drive(s);
    push_named_components(&mut r, &rest);
    assert(char_vec_views(r@) =~= component_keys(s@));
    r
}

/// The named components of the path `s`.
fn path_named_components(s: &Vec<char>) -> (r: Vec<Vec<char>>)
    ensures
        char_vec_views(r@) == named_components(after_drive(s@)),
{
    let mut r: Vec<Vec<char>> = Vec::new();
    assert(char_vec_views(r@) =~= Seq::<Seq<char>>::empty());
    let rest = path_after_drive(s);
    push_named_components(&mut r, &rest);
    assert(char_vec_views(r@) =~= named_components(after_drive(s@)));
    r
}

/// One past the index of the last `.` in `s` (0 when there is none).
fn find_last_dot(s: &Vec<char>) -> (j: usize)
    ensures
        j <= s.len(),
        last_dot(s@) == j - 1,
{
    let mut j: usize = s.len();
    assert(s@.take(j as int) =~= s@);
    while j > 0 && s[j - 1] != '.'
        invariant
            j <= s.len(),
            last_dot(s@) == last_dot(s@.take(j as int)),
        decreases j,
    {
        assert(s@.take(j as int).drop_last() =~= s@.take(j - 1));
        j = j - 1;
    }
    if j > 0 {
        assert(s@.take(j as int).last() == '.');
    }
    j
}

/// Splits a file name into its stem and its extension.
pub fn split_name(name: &Vec<char>) -> (r: (Vec<char>, Option<Vec<char>>))
    ensures
        r.0@ == name_stem(name@),
        match r.1 {
            Some(e) => name_extension(name@) == Some(e@),
            None => name_extension(name@) is None,
        },
{
    let j = find_last_dot(name);
    if j <= 1 {
        assert(name@.subrange(0, name.len() as int) =~= name@);
        (char_range(name, 0, name.len()), None)
    } else {
        let k = j - 1;
        let stem = char_range(name, 0, k);
        let ext = char_range(name, j, name.len());
        assert(stem@ =~= name@.take(k as int));
        assert(ext@ =~= name@.skip(k + 1));
        (stem, Some(ext))
    }
}

/// The last component of the path, when it is a named one other than `.`
/// and `..`.
pub fn path_file_name(s: &Vec<char>) -> (r: Option<Vec<char>>)
    ensures
        match r {
            Some(n) => file_name(s@) == Some(n@),
            None => file_name(s@) is None,
        },
{
    let comps = path_named_components(s);
    let n = comps.len();
    if n == 0 {
        return None;
    }
    let last = &comps[n - 1];
    assert(char_vec_views(comps@)[n - 1] == last@);
    let is_dot = last.len() == 1 && last[0] == '.';
    let is_parent = last.len() == 2 && last[0] == '.' && last[1] == '.';
    if is_dot {
        assert(last@ =~= seq!['.']);
        None
    } else if is_parent {
        assert(last@ =~= seq!['.', '.']);
        None
    } else {
        assert(last@ != seq!['.']) by {
            if last@ == seq!['.'] {
                assert(last@.len() == 1 && last@[0] == '.');
            }
        }
        assert(last@ != seq!['.', '.']) by {
            if last@ == seq!['.', '.'] {
                assert(last@.len() == 2 && last@[0] == '.' && last@[1] == '.');
            }
        }
        assert(last@.subrange(0, last.len() as int) =~= last@);
        Some(char_range(last, 0, last.len()))
    }
}

/// The stem and extension of the path's file name.
pub fn path_stem_and_extension(s: &Vec<char>) -> (r: Option<(Vec<char>, Option<Vec<char>>)>)
    ensures
        match r {
            Some(p) => file_stem(s@) == Some(p.0@) && match p.1 {
                Some(e) => extension(s@) == Some(e@),
                None => extension(s@) is None,
            },
            None => file_stem(s@) is None && extension(s@) is None,
        },
{
    match path_file_name(s) {
        Some(name) => Some(split_name(&name)),
        None => None,
    }
}

/// The first component of `file`'s parent below `root`.
pub fn path_first_dir_below(root: &Vec<char>, file: &Vec<char>) -> (r: Option<Vec<char>>)
    ensures
        match r {
            Some(d) => first_dir_below(root@, file@) == Some(d@),
            None => first_dir_below(root@, file@) is None,
        },
{
    let named = path_named_components(file);
    if named.len() == 0 {
        return None;
    }
    let fk = path_component_keys(file);
    let rk = path_component_keys(root);
    let ghost fkv = char_vec_views(fk@);
    let ghost rkv = char_vec_views(rk@);
    let ghost parent = fkv.drop_last();
    assert(fkv.len() > 0) by {
        assert(char_vec_views(named@).len() > 0);
    }
    if rk.len() >= fk.len() - 1 {
        return None;
    }
    let mut i: usize = 0;
    while i < rk.len()
        invariant
            i <= rk.len(),
            rk.len() + 1 < fk.len(),
            fkv == char_vec_views(fk@),
            rkv == char_vec_views(rk@),
            fkv == component_keys(file@),
            rkv == component_keys(root@),
            parent == fkv.drop_last(),
            named_components(after_drive(file@)).len() > 0,
            forall|k: int| 0 <= k < i ==> parent[k] == rkv[k],
        decreases rk.len() - i,
    {
        if !chars_equal(&fk[i], &rk[i]) {
            assert(fkv[i as int] == fk@[i as int]@);
            assert(rkv[i as int] == rk@[i as int]@);
            assert(parent.take(rkv.len() as int)[i as int] != rkv[i as int]);
            return None;
        }
        i = i + 1;
    }
    assert(parent.take(rkv.len() as int) =~= rkv);
    let fc = path_components(file);
    let ghost fcv = char_vec_views(fc@);
    assert(fcv.len() == fkv.len());
    let d = &fc[rk.len()];
    assert(fcv[rk.len() as int] == d@);
    assert(d@.subrange(0, d.len() as int) =~= d@);
    Some(char_range(d, 0, d.len()))
}

/// `name` appended to the directory `dir` with the separator `sep`
/// (unless `dir` is empty, is a bare drive, or ends with a separator).
pub fn join_with_separator(dir: &Vec<char>, name: &Vec<char>, sep: char) -> (r: Vec<char>)
    ensures
        r@ == joined(dir@, name@, sep),
{
    let mut r = char_range(dir, 0, dir.len());
    assert(dir@.subrange(0, dir.len() as int) =~= dir@);
    if dir.len() == 0 || is_separator(dir[dir.len() - 1]) || (dir.len() == 2 && path_has_drive(dir)) {
        append_chars(&mut r, name);
    } else {
        r.push(sep);
        append_chars(&mut r, name);
    }
    assert(r@ =~= joined(dir@, name@, sep));
    r
}

} // verus!

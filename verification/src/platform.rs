//! The operating-system conventions the library follows: executable names, path
//! separators, Windows path prefixes, how a directory and a file name are joined, and
//! what the parent of a path is.
use vstd::prelude::*;
use crate::text::{chars_of, opt_chars, slice, split_on, split_on_exec, string_of, trim, trim_chars, views};

verus! {

/// The platform family the application runs on.
#[derive(Clone, Copy, Debug, PartialEq, Eq, Structural)]
pub enum Platform {
    Windows,
    Unix,
}

/// `c` separates path components on `p` (Windows accepts both slashes).
pub open spec fn is_sep(c: char, p: Platform) -> bool {
    c == '/' || (p == Platform::Windows && c == '\\')
}

/// The separator that joining inserts on `p`.
pub open spec fn main_sep(p: Platform) -> char {
    if p == Platform::Windows {
        '\\'
    } else {
        '/'
    }
}

/// The separator between entries of the `PATH` variable on `p`.
pub open spec fn list_sep(p: Platform) -> char {
    if p == Platform::Windows {
        ';'
    } else {
        ':'
    }
}

/// `d` is a bare Windows drive such as `C:`.
pub open spec fn bare_drive(d: Seq<char>, p: Platform) -> bool {
    &&& p == Platform::Windows
    &&& d.len() == 2
    &&& d[1] == ':'
    &&& (('a' <= d[0] && d[0] <= 'z') || ('A' <= d[0] && d[0] <= 'Z'))
}

/// `name` is a relative path that neither starts at a root nor names a drive.
pub open spec fn relative_name(name: Seq<char>, p: Platform) -> bool {
    &&& name.len() > 0
    &&& !is_sep(name[0], p)
    &&& !(p == Platform::Windows && name.len() >= 2 && name[1] == ':')
}

/// The first position at or after `i` that holds a component separator (only `\`
/// inside a verbatim path), or the length of `s`.
pub open spec fn comp_end(s: Seq<char>, i: int, verbatim: bool, p: Platform) -> int
    decreases s.len() - i,
{
    if i < 0 || i >= s.len() {
        s.len() as int
    } else if (if verbatim { s[i] == '\\' } else { is_sep(s[i], p) }) {
        i
    } else {
        comp_end(s, i + 1, verbatim, p)
    }
}

/// `c` is an ASCII letter.
pub open spec fn ascii_alpha(c: char) -> bool {
    ('a' <= c && c <= 'z') || ('A' <= c && c <= 'Z')
}

/// The Windows path prefix that `s` starts with: its length (0 when there is none) and
/// whether it is verbatim (`\\?\`). The forms are `\\?\UNC\server\share`, `\\?\C:`,
/// `\\?\name`, `\\.\device`, `\\server\share` and `C:`. Either slash counts among the
/// first eight characters except in `\\?\` itself; after a verbatim marker only `\` ends a
/// component.
pub open spec fn prefix_info(s: Seq<char>, p: Platform) -> (int, bool) {
    if p != Platform::Windows {
        (0, false)
    } else if s.len() >= 2 && is_sep(s[0], p) && is_sep(s[1], p) {
        if s.len() >= 4 && s[0] == '\\' && s[1] == '\\' && s[2] == '?' && s[3] == '\\' {
            if s.len() >= 8 && s[4] == 'U' && s[5] == 'N' && s[6] == 'C' && is_sep(s[7], p) {
                let se = comp_end(s, 8, true, p);
                if se >= s.len() {
                    (se, true)
                } else {
                    let sh = comp_end(s, se + 1, true, p);
                    if sh > se + 1 {
                        (sh, true)
                    } else {
                        (se, true)
                    }
                }
            } else if s.len() >= 6 && ascii_alpha(s[4]) && s[5] == ':' && (s.len() == 6 || s[6] == '\\') {
                (6, true)
            } else {
                (comp_end(s, 4, true, p), true)
            }
        } else if s.len() >= 4 && s[2] == '.' && is_sep(s[3], p) {
            (comp_end(s, 4, false, p), false)
        } else {
            let se = comp_end(s, 2, false, p);
            if se == 2 || se >= s.len() {
                (0, false)
            } else {
                let sh = comp_end(s, se + 1, false, p);
                if sh == se + 1 {
                    (0, false)
                } else {
                    (sh, false)
                }
            }
        }
    } else if s.len() >= 2 && s[1] == ':' && ascii_alpha(s[0]) {
        (2, false)
    } else {
        (0, false)
    }
}

/// The length of the prefix of `s`.
pub open spec fn prefix_len(s: Seq<char>, p: Platform) -> int {
    prefix_info(s, p).0
}

/// `s` has a verbatim prefix.
pub open spec fn is_verbatim(s: Seq<char>, p: Platform) -> bool {
    prefix_info(s, p).1
}

/// A separator follows the prefix of `s`.
pub open spec fn physical_root(s: Seq<char>, p: Platform) -> bool {
    s.len() > prefix_len(s, p) && is_sep(s[prefix_len(s, p)], p)
}

/// `c` separates components of `s` (only `\` in a verbatim path).
pub open spec fn comp_sep(c: char, s: Seq<char>, p: Platform) -> bool {
    if is_verbatim(s, p) {
        c == '\\'
    } else {
        is_sep(c, p)
    }
}

/// How many characters of `s` come before its first component: the prefix, the root, and
/// a leading `.` of a path without root.
pub open spec fn before_body(s: Seq<char>, p: Platform) -> int {
    let pl = prefix_len(s, p);
    let root = physical_root(s, p);
    let has_root = root || (pl > 0 && !bare_drive(s.take(pl), p));
    let cur = !has_root && s.len() > pl && s[pl] == '.' && (s.len() == pl + 1 || comp_sep(s[pl + 1], s, p));
    pl + (if root { 1int } else { 0int }) + (if cur { 1int } else { 0int })
}

/// The non-empty pieces of `s` between backslashes: the components of a verbatim path.
pub open spec fn verbatim_comps(s: Seq<char>) -> Seq<Seq<char>> {
    split_on(s, '\\').filter(|c: Seq<char>| c.len() > 0)
}

/// A component that a following `..` removes: neither `.` nor `..`.
pub open spec fn is_normal(c: Seq<char>) -> bool {
    c != "."@ && c != ".."@
}

/// `c` with each separator of `p` written as the main one.
pub open spec fn unify_sep(c: char, p: Platform) -> char {
    if is_sep(c, p) {
        main_sep(p)
    } else {
        c
    }
}

/// The pieces of `name` between separators (either slash on Windows).
pub open spec fn name_pieces(name: Seq<char>, p: Platform) -> Seq<Seq<char>> {
    split_on(name.map_values(|c: char| unify_sep(c, p)), main_sep(p))
}

/// The components `buf` of a verbatim path after the pieces `cs` of a relative name are
/// added: empty pieces and `.` are skipped, and `..` removes the last component when
/// that one is normal.
pub open spec fn push_comps(buf: Seq<Seq<char>>, cs: Seq<Seq<char>>) -> Seq<Seq<char>>
    decreases cs.len(),
{
    if cs.len() == 0 {
        buf
    } else {
        let b = push_comps(buf, cs.drop_last());
        let c = cs.last();
        if c.len() == 0 || c == "."@ {
            b
        } else if c == ".."@ {
            if b.len() > 0 && is_normal(b.last()) {
                b.drop_last()
            } else {
                b
            }
        } else {
            b.push(c)
        }
    }
}

/// `cs` with a backslash between each two.
pub open spec fn joined(cs: Seq<Seq<char>>) -> Seq<char>
    decreases cs.len(),
{
    if cs.len() == 0 {
        Seq::empty()
    } else if cs.len() == 1 {
        cs[0]
    } else {
        joined(cs.drop_last()).push('\\') + cs.last()
    }
}

/// `dir` joined with the relative `name` as `Path::join` does it. A separator goes
/// between them unless `dir` is empty, already ends with a separator, or is a bare drive.
/// A verbatim `dir` is rebuilt instead: its prefix, a backslash, then its non-empty
/// components and those of `name` separated by backslashes, with `.` in `name` skipped
/// and `..` in `name` removing the component before it.
pub open spec fn join(dir: Seq<char>, name: Seq<char>, p: Platform) -> Seq<char> {
    if is_verbatim(dir, p) {
        let pl = prefix_len(dir, p);
        let root = physical_root(dir, p);
        let body = dir.skip(pl + if root { 1int } else { 0int });
        let comps = push_comps(verbatim_comps(body), name_pieces(name, p));
        dir.take(pl) + (if root || comps.len() > 0 { seq!['\\'] } else { Seq::empty() }) + joined(comps)
    } else if dir.len() == 0 || is_sep(dir.last(), p) || bare_drive(dir, p) {
        dir + name
    } else {
        dir.push(main_sep(p)) + name
    }
}

/// `r` without its trailing separators and `.` components (kept in verbatim paths), but
/// never shorter than `l`.
pub open spec fn trim_back(r: Seq<char>, l: int, s: Seq<char>, p: Platform) -> Seq<char>
    decreases r.len(),
{
    if r.len() <= l || r.len() == 0 {
        r
    } else if comp_sep(r.last(), s, p) {
        trim_back(r.drop_last(), l, s, p)
    } else if !is_verbatim(s, p) && r.last() == '.' && (r.len() - 1 == l || (r.len() >= 2
        && comp_sep(r[r.len() - 2], s, p))) {
        trim_back(r.drop_last(), l, s, p)
    } else {
        r
    }
}

/// The position of the last component separator of `r` at or after `l`, or `l - 1`
/// where there is none.
pub open spec fn last_sep(r: Seq<char>, l: int, s: Seq<char>, p: Platform) -> int
    decreases r.len(),
{
    if r.len() <= l || r.len() == 0 {
        l - 1
    } else if comp_sep(r.last(), s, p) {
        r.len() - 1
    } else {
        last_sep(r.drop_last(), l, s, p)
    }
}

/// `Path::parent` of `s`, once the part `r` of it is left: the last component of `r` is
/// dropped with the separator before it; an empty or `.` component is skipped over,
/// another one gives what is left before it (trailing separators and `.` trimmed). Where
/// no component is left, only a path without prefix or root that starts with `.` has a
/// parent: the empty path.
pub open spec fn parent_rest(r: Seq<char>, s: Seq<char>, p: Platform) -> Option<Seq<char>>
    decreases r.len(),
{
    let l = before_body(s, p);
    if r.len() <= l {
        if prefix_len(s, p) == 0 && !physical_root(s, p) && l == 1 {
            Some(Seq::empty())
        } else {
            None
        }
    } else {
        let k = last_sep(r, l, s, p);
        let comp = r.skip(k + 1);
        let rest = if k >= l {
            r.take(k)
        } else {
            r.take(l)
        };
        if comp.len() == 0 || (!is_verbatim(s, p) && comp == "."@) {
            proof {
                lemma_before_body_nonneg(s, p);
                lemma_last_sep(r, l, s, p);
            }
            parent_rest(rest, s, p)
        } else {
            Some(trim_back(rest, l, s, p))
        }
    }
}

/// Lemma: `comp_end` is not negative.
proof fn lemma_comp_end(s: Seq<char>, i: int, verbatim: bool, p: Platform)
    requires
        0 <= i,
    ensures
        0 <= comp_end(s, i, verbatim, p),
    decreases s.len() - i,
{
    if i < s.len() {
        lemma_comp_end(s, i + 1, verbatim, p);
    }
}

/// Lemma: no path has a negative number of characters before its body.
pub proof fn lemma_before_body_nonneg(s: Seq<char>, p: Platform)
    ensures
        before_body(s, p) >= 0,
{
    lemma_comp_end(s, 2, false, p);
    lemma_comp_end(s, 4, false, p);
    lemma_comp_end(s, 4, true, p);
    lemma_comp_end(s, 8, true, p);
    if s.len() >= 8 {
        lemma_comp_end(s, comp_end(s, 8, true, p) + 1, true, p);
    }
    lemma_comp_end(s, comp_end(s, 2, false, p) + 1, false, p);
}

/// Lemma: the last separator lies before the end and not before `l - 1`.
pub proof fn lemma_last_sep(r: Seq<char>, l: int, s: Seq<char>, p: Platform)
    requires
        0 <= l < r.len(),
    ensures
        l - 1 <= last_sep(r, l, s, p) < r.len(),
    decreases r.len(),
{
    if !comp_sep(r.last(), s, p) {
        if r.drop_last().len() > l {
            lemma_last_sep(r.drop_last(), l, s, p);
        } else {
            assert(last_sep(r.drop_last(), l, s, p) == l - 1);
        }
    }
}

/// What `Path::parent` gives for `s`.
pub open spec fn parent(s: Seq<char>, p: Platform) -> Option<Seq<char>> {
    parent_rest(s, s, p)
}

/// The directory of the file `name` found in `PATH` entry `e`: the parent of the joined
/// path.
pub open spec fn dir_of_entry(e: Seq<char>, name: Seq<char>, p: Platform) -> Option<Seq<char>> {
    parent(join(e, name, p), p)
}

/// The directory entries of a `PATH` value: split at the list separator, each entry
/// trimmed, empty entries dropped.
pub open spec fn path_entries(path_var: Seq<char>, p: Platform) -> Seq<Seq<char>> {
    split_on(path_var, list_sep(p)).map_values(|e: Seq<char>| trim(e)).filter(
        |e: Seq<char>| e.len() > 0,
    )
}

/// The file name of a program on `p`: `.exe` is added on Windows.
pub open spec fn exe(base: Seq<char>, p: Platform) -> Seq<char> {
    if p == Platform::Windows {
        base + ".exe"@
    } else {
        base
    }
}

/// Names of the downloader programs, preferred first: yt-dlp, then youtube-dl.
pub open spec fn downloader_names(p: Platform) -> Seq<Seq<char>> {
    seq![exe("yt-dlp"@, p), exe("youtube-dl"@, p)]
}

/// The folder under `dependencies/` that holds the tools for `p`.
pub open spec fn platform_dir(p: Platform) -> Seq<char> {
    if p == Platform::Windows {
        "windows"@
    } else {
        "mac"@
    }
}

/// The separator that joining inserts on `p`.
pub fn main_separator(p: Platform) -> (c: char)
    ensures
        c == main_sep(p),
{
    match p {
        Platform::Windows => '\\',
        Platform::Unix => '/',
    }
}

/// Whether `c` separates path components on `p`.
pub fn is_separator(c: char, p: Platform) -> (b: bool)
    ensures
        b == is_sep(c, p),
{
    c == '/' || (p == Platform::Windows && c == '\\')
}

/// The program name for `base` on `p`.
pub fn exe_name(base: &str, p: Platform) -> (r: String)
    ensures
        r@ == exe(base@, p),
{
    let mut r = string_of(&chars_of(base));
    if p == Platform::Windows {
        r.append(".exe");
    }
    r
}

/// The downloader programs to look for, preferred first.
pub fn candidate_names(p: Platform) -> (r: Vec<String>)
    ensures
        r@.len() == 2,
        r@[0]@ == downloader_names(p)[0],
        r@[1]@ == downloader_names(p)[1],
{
    let mut r: Vec<String> = Vec::new();
    r.push(exe_name("yt-dlp", p));
    r.push(exe_name("youtube-dl", p));
    r
}

/// `windows` on Windows, `mac` elsewhere.
pub fn deps_platform_dir_name(p: Platform) -> (r: &'static str)
    ensures
        r@ == platform_dir(p),
{
    match p {
        Platform::Windows => "windows",
        Platform::Unix => "mac",
    }
}

/// The ffmpeg program name.
pub fn ffmpeg_exe_name(p: Platform) -> (r: String)
    ensures
        r@ == exe("ffmpeg"@, p),
{
    exe_name("ffmpeg", p)
}

/// The ffprobe program name.
pub fn ffprobe_exe_name(p: Platform) -> (r: String)
    ensures
        r@ == exe("ffprobe"@, p),
{
    exe_name("ffprobe", p)
}

/// The Deno program name.
pub fn deno_exe_name(p: Platform) -> (r: String)
    ensures
        r@ == exe("deno"@, p),
{
    exe_name("deno", p)
}

/// The Node.js program name.
pub fn node_exe_name(p: Platform) -> (r: String)
    ensures
        r@ == exe("node"@, p),
{
    exe_name("node", p)
}

/// Whether `c` is an ASCII letter.
fn is_ascii_letter(c: char) -> (b: bool)
    ensures
        b == ascii_alpha(c),
{
    ('a' <= c && c <= 'z') || ('A' <= c && c <= 'Z')
}

/// The end of the component of `s` that starts at `i`.
fn comp_end_exec(s: &Vec<char>, i: usize, verbatim: bool, p: Platform) -> (r: usize)
    requires
        i <= s.len(),
    ensures
        r as int == comp_end(s@, i as int, verbatim, p),
        i <= r <= s.len(),
{
    let mut j = i;
    while j < s.len()
        invariant
            i <= j <= s.len(),
            comp_end(s@, i as int, verbatim, p) == comp_end(s@, j as int, verbatim, p),
        decreases s.len() - j,
    {
        let c = s[j];
        let hit = if verbatim {
            c == '\\'
        } else {
            is_separator(c, p)
        };
        if hit {
            return j;
        }
        j += 1;
    }
    j
}

/// The length of the prefix of `s` and whether it is verbatim.
fn prefix_info_exec(s: &Vec<char>, p: Platform) -> (r: (usize, bool))
    ensures
        r.0 as int == prefix_len(s@, p),
        r.1 == is_verbatim(s@, p),
        r.0 <= s.len(),
{
    let n = s.len();
    if p == Platform::Unix {
        return (0, false);
    }
    if n >= 2 && is_separator(s[0], p) && is_separator(s[1], p) {
        if n >= 4 && s[0] == '\\' && s[1] == '\\' && s[2] == '?' && s[3] == '\\' {
            if n >= 8 && s[4] == 'U' && s[5] == 'N' && s[6] == 'C' && is_separator(s[7], p) {
                let se = comp_end_exec(s, 8, true, p);
                if se >= n {
                    (se, true)
                } else {
                    let sh = comp_end_exec(s, se + 1, true, p);
                    if sh > se + 1 {
                        (sh, true)
                    } else {
                        (se, true)
                    }
                }
            } else if n >= 6 && is_ascii_letter(s[4]) && s[5] == ':' && (n == 6 || s[6] == '\\') {
                (6, true)
            } else {
                (comp_end_exec(s, 4, true, p), true)
            }
        } else if n >= 4 && s[2] == '.' && is_separator(s[3], p) {
            (comp_end_exec(s, 4, false, p), false)
        } else {
            let se = comp_end_exec(s, 2, false, p);
            if se == 2 || se >= n {
                (0, false)
            } else {
                let sh = comp_end_exec(s, se + 1, false, p);
                if sh == se + 1 {
                    (0, false)
                } else {
                    (sh, false)
                }
            }
        }
    } else if n >= 2 && s[1] == ':' && is_ascii_letter(s[0]) {
        (2, false)
    } else {
        (0, false)
    }
}

/// Whether `c` separates components of a path whose prefix is verbatim (`verb`) or not.
fn is_comp_sep(c: char, verb: bool, p: Platform) -> (b: bool)
    ensures
        b == (if verb { c == '\\' } else { is_sep(c, p) }),
{
    if verb {
        c == '\\'
    } else {
        is_separator(c, p)
    }
}

/// How many characters of `s` come before its first component.
fn before_body_exec(s: &Vec<char>, pl: usize, verb: bool, p: Platform) -> (r: usize)
    requires
        pl as int == prefix_len(s@, p),
        verb == is_verbatim(s@, p),
        pl <= s.len(),
    ensures
        r as int == before_body(s@, p),
        pl <= r <= s.len(),
{
    let n = s.len();
    let root = n > pl && is_separator(s[pl], p);
    let drive = p == Platform::Windows && pl == 2 && s[1] == ':' && is_ascii_letter(s[0]);
    proof {
        if pl == 2 {
            assert(s@.take(2)[0] == s@[0] && s@.take(2)[1] == s@[1]);
        }
        assert(drive == bare_drive(s@.take(pl as int), p));
    }
    let has_root = root || (pl > 0 && !drive);
    let cur = !has_root && n > pl && s[pl] == '.' && (n == pl + 1 || is_comp_sep(s[pl + 1], verb, p));
    let mut r = pl;
    if root {
        r += 1;
    }
    if cur {
        r += 1;
    }
    r
}

/// `r` with the characters of `s` added.
fn extend_chars(r: &mut Vec<char>, s: &Vec<char>)
    ensures
        final(r)@ == old(r)@ + s@,
{
    let ghost start = r@;
    let mut i: usize = 0;
    while i < s.len()
        invariant
            i <= s.len(),
            r@ == start + s@.take(i as int),
        decreases s.len() - i,
    {
        r.push(s[i]);
        i += 1;
        assert(r@ =~= start + s@.take(i as int));
    }
    assert(s@.take(s.len() as int) =~= s@);
}

/// Whether `c` is the component `.`.
fn is_dot(c: &Vec<char>) -> (b: bool)
    ensures
        b == (c@ == "."@),
{
    proof {
        reveal_strlit(".");
    }
    if c.len() == 1 && c[0] == '.' {
        assert(c@ =~= "."@);
        true
    } else {
        false
    }
}

/// Whether `c` is the component `..`.
fn is_dot_dot(c: &Vec<char>) -> (b: bool)
    ensures
        b == (c@ == ".."@),
{
    proof {
        reveal_strlit("..");
    }
    if c.len() == 2 && c[0] == '.' && c[1] == '.' {
        assert(c@ =~= ".."@);
        true
    } else {
        false
    }
}

/// The non-empty pieces of `s` between backslashes.
fn verbatim_comps_exec(s: &Vec<char>) -> (r: Vec<Vec<char>>)
    ensures
        views(r@) == verbatim_comps(s@),
{
    let pieces = split_on_exec(s, '\\');
    let ghost all = views(pieces@);
    let ghost pred = |c: Seq<char>| c.len() > 0;
    let mut r: Vec<Vec<char>> = Vec::new();
    let mut k: usize = 0;
    while k < pieces.len()
        invariant
            k <= pieces.len(),
            all == views(pieces@),
            all == split_on(s@, '\\'),
            pred == (|c: Seq<char>| c.len() > 0),
            views(r@) == all.take(k as int).filter(pred),
        decreases pieces.len() - k,
    {
        reveal_with_fuel(Seq::<_>::filter, 1);
        proof {
            assert(all.take(k + 1).drop_last() =~= all.take(k as int));
        }
        if pieces[k].len() > 0 {
            let ghost old_r = views(r@);
            r.push(slice(&pieces[k], 0, pieces[k].len()));
            proof {
                assert(pieces@[k as int]@.subrange(0, pieces@[k as int]@.len() as int) =~= pieces@[k as int]@);
                assert(views(r@) =~= old_r.push(all[k as int]));
            }
        }
        k += 1;
    }
    assert(all.take(pieces.len() as int) =~= all);
    r
}

/// The pieces of `name` between separators.
fn name_pieces_exec(name: &Vec<char>, p: Platform) -> (r: Vec<Vec<char>>)
    ensures
        views(r@) == name_pieces(name@, p),
{
    let sep = main_separator(p);
    let mut u: Vec<char> = Vec::new();
    let mut i: usize = 0;
    while i < name.len()
        invariant
            i <= name.len(),
            sep == main_sep(p),
            u@ == name@.take(i as int).map_values(|c: char| unify_sep(c, p)),
        decreases name.len() - i,
    {
        let c = name[i];
        let d = if is_separator(c, p) {
            sep
        } else {
            c
        };
        u.push(d);
        i += 1;
        assert(u@ =~= name@.take(i as int).map_values(|c: char| unify_sep(c, p)));
    }
    assert(name@.take(name.len() as int) =~= name@);
    split_on_exec(&u, sep)
}

/// Joins the components `cs` with backslashes after `r`.
fn extend_joined(r: &mut Vec<char>, cs: &Vec<Vec<char>>)
    ensures
        final(r)@ == old(r)@ + joined(views(cs@)),
{
    let ghost start = r@;
    let ghost all = views(cs@);
    let mut k: usize = 0;
    while k < cs.len()
        invariant
            k <= cs.len(),
            all == views(cs@),
            r@ == start + joined(all.take(k as int)),
        decreases cs.len() - k,
    {
        let ghost before = r@;
        if k > 0 {
            r.push('\\');
        }
        extend_chars(r, &cs[k]);
        proof {
            let t = all.take(k + 1);
            assert(t.drop_last() =~= all.take(k as int));
            assert(t.last() == cs@[k as int]@);
            if k == 0 {
                assert(joined(all.take(0)) =~= Seq::<char>::empty());
                assert(r@ =~= start + joined(t));
            } else {
                assert(r@ =~= start + joined(t));
            }
        }
        k += 1;
    }
    assert(all.take(cs.len() as int) =~= all);
}

/// A verbatim `dir` rebuilt with the pieces of `name` added.
fn join_verbatim(dir: &Vec<char>, name: &Vec<char>, pl: usize, p: Platform) -> (r: Vec<char>)
    requires
        pl as int == prefix_len(dir@, p),
        is_verbatim(dir@, p),
        pl <= dir.len(),
    ensures
        r@ == join(dir@, name@, p),
{
    let root = dir.len() > pl && is_separator(dir[pl], p);
    let start = if root {
        pl + 1
    } else {
        pl
    };
    let body = slice(dir, start, dir.len());
    proof {
        assert(body@ =~= dir@.skip(pl + if root { 1int } else { 0int }));
    }
    let mut comps = verbatim_comps_exec(&body);
    let pieces = name_pieces_exec(name, p);
    let ghost base = views(comps@);
    let ghost np = views(pieces@);
    let mut k: usize = 0;
    while k < pieces.len()
        invariant
            k <= pieces.len(),
            np == views(pieces@),
            views(comps@) == push_comps(base, np.take(k as int)),
        decreases pieces.len() - k,
    {
        proof {
            assert(np.take(k + 1).drop_last() =~= np.take(k as int));
            assert(np.take(k + 1).last() == pieces@[k as int]@);
        }
        let piece = &pieces[k];
        if piece.len() == 0 || is_dot(piece) {
        } else if is_dot_dot(piece) {
            let n = comps.len();
            if n > 0 && !is_dot(&comps[n - 1]) && !is_dot_dot(&comps[n - 1]) {
                let ghost old_c = views(comps@);
                comps.pop();
                proof {
                    assert(views(comps@) =~= old_c.drop_last());
                }
            }
        } else {
            let ghost old_c = views(comps@);
            comps.push(slice(piece, 0, piece.len()));
            proof {
                assert(piece@.subrange(0, piece@.len() as int) =~= piece@);
                assert(views(comps@) =~= old_c.push(piece@));
            }
        }
        k += 1;
    }
    assert(np.take(pieces.len() as int) =~= np);
    let mut r = slice(dir, 0, pl);
    if root || comps.len() > 0 {
        r.push('\\');
    }
    extend_joined(&mut r, &comps);
    proof {
        assert(dir@.subrange(0, pl as int) =~= dir@.take(pl as int));
    }
    r
}

/// `dir` joined with the relative `name`, as characters.
pub fn join_chars(dir: &Vec<char>, name: &Vec<char>, p: Platform) -> (r: Vec<char>)
    requires
        relative_name(name@, p),
    ensures
        r@ == join(dir@, name@, p),
{
    let (pl, verb) = prefix_info_exec(dir, p);
    if verb {
        return join_verbatim(dir, name, pl, p);
    }
    let bare = p == Platform::Windows && dir.len() == 2 && dir[1] == ':' && is_ascii_letter(dir[0]);
    let mut r = slice(dir, 0, dir.len());
    assert(r@ =~= dir@);
    if !(dir.len() == 0 || is_separator(dir[dir.len() - 1], p) || bare) {
        r.push(main_separator(p));
    }
    extend_chars(&mut r, name);
    r
}

/// `dir` joined with the relative `name` (what `Path::join` gives for such a name).
pub fn join_path(dir: &str, name: &str, p: Platform) -> (r: String)
    requires
        relative_name(name@, p),
    ensures
        r@ == join(dir@, name@, p),
{
    string_of(&join_chars(&chars_of(dir), &chars_of(name), p))
}

/// The length to which `trim_back` cuts `s.take(j)`.
fn trim_back_exec(s: &Vec<char>, j: usize, l: usize, verb: bool, p: Platform) -> (t: usize)
    requires
        j <= s.len(),
        verb == is_verbatim(s@, p),
    ensures
        t <= j,
        trim_back(s@.take(j as int), l as int, s@, p) == s@.take(t as int),
{
    let mut t = j;
    loop
        invariant
            t <= j <= s.len(),
            verb == is_verbatim(s@, p),
            trim_back(s@.take(j as int), l as int, s@, p) == trim_back(s@.take(t as int), l as int, s@, p),
        ensures
            t <= j,
            trim_back(s@.take(j as int), l as int, s@, p) == s@.take(t as int),
        decreases t,
    {
        let ghost r = s@.take(t as int);
        if t <= l || t == 0 {
            break;
        }
        let c = s[t - 1];
        assert(r.last() == c && r.len() == t);
        assert(r.drop_last() =~= s@.take(t - 1));
        if is_comp_sep(c, verb, p) {
            t -= 1;
        } else if !verb && c == '.' && (t - 1 == l || (t >= 2 && is_separator(s[t - 2], p))) {
            assert(t >= 2 ==> r[t - 2] == s@[t - 2]);
            t -= 1;
        } else {
            assert(t >= 2 ==> r[t - 2] == s@[t - 2]);
            break;
        }
    }
    t
}

/// What `Path::parent` gives for `s`.
#[verifier::rlimit(30)]
pub fn path_parent(s: &Vec<char>, p: Platform) -> (r: Option<Vec<char>>)
    ensures
        opt_chars(r) == parent(s@, p),
{
    let (pl, verb) = prefix_info_exec(s, p);
    let l = before_body_exec(s, pl, verb, p);
    let root = s.len() > pl && is_separator(s[pl], p);
    let mut j = s.len();
    assert(s@.take(j as int) =~= s@);
    loop
        invariant
            l <= j <= s.len(),
            pl as int == prefix_len(s@, p),
            verb == is_verbatim(s@, p),
            l as int == before_body(s@, p),
            root == physical_root(s@, p),
            parent(s@, p) == parent_rest(s@.take(j as int), s@, p),
        decreases j,
    {
        let ghost r = s@.take(j as int);
        if j <= l {
            if pl == 0 && !root && l == 1 {
                return Some(Vec::new());
            } else {
                return None;
            }
        }
        let mut k = j;
        while k > l && !is_comp_sep(s[k - 1], verb, p)
            invariant
                l <= k <= j <= s.len(),
                verb == is_verbatim(s@, p),
                last_sep(s@.take(j as int), l as int, s@, p) == last_sep(s@.take(k as int), l as int, s@, p),
            decreases k,
        {
            let ghost q = s@.take(k as int);
            assert(q.last() == s@[k - 1]);
            assert(q.drop_last() =~= s@.take(k - 1));
            k -= 1;
        }
        let ghost q = s@.take(k as int);
        proof {
            if k > l {
                assert(q.last() == s@[k - 1]);
                assert(last_sep(q, l as int, s@, p) == k - 1);
            } else {
                assert(last_sep(q, l as int, s@, p) == l - 1);
            }
        }
        let rest_len = if k > l {
            k - 1
        } else {
            l
        };
        let comp_len = j - k;
        let dot = comp_len == 1 && s[k] == '.';
        proof {
            reveal_strlit(".");
            let comp = r.skip(last_sep(r, l as int, s@, p) + 1);
            assert(comp =~= s@.subrange(k as int, j as int));
            if dot {
                assert(comp =~= "."@);
            }
            if comp == "."@ {
                assert(comp[0] == '.');
            }
            assert(r.take(rest_len as int) =~= s@.take(rest_len as int));
        }
        if comp_len == 0 || (!verb && dot) {
            j = rest_len;
        } else {
            let t = trim_back_exec(s, rest_len, l, verb, p);
            assert(s@.subrange(0, t as int) =~= s@.take(t as int));
            return Some(slice(s, 0, t));
        }
    }
}

/// The directory of the file `name` found in `PATH` entry `e`.
pub fn entry_dir(e: &Vec<char>, name: &Vec<char>, p: Platform) -> (r: Option<Vec<char>>)
    requires
        relative_name(name@, p),
    ensures
        opt_chars(r) == dir_of_entry(e@, name@, p),
{
    let f = join_chars(e, name, p);
    path_parent(&f, p)
}

/// The trimmed, non-empty entries of a `PATH` value.
pub fn path_entries_exec(path_var: &Vec<char>, p: Platform) -> (r: Vec<Vec<char>>)
    ensures
        views(r@) == path_entries(path_var@, p),
{
    let sep = match p {
        Platform::Windows => ';',
        Platform::Unix => ':',
    };
    let pieces = split_on_exec(path_var, sep);
    let ghost trimmed = views(pieces@).map_values(|e: Seq<char>| trim(e));
    let ghost pred = |e: Seq<char>| e.len() > 0;
    let mut r: Vec<Vec<char>> = Vec::new();
    let mut k: usize = 0;
    while k < pieces.len()
        invariant
            k <= pieces.len(),
            views(pieces@) == split_on(path_var@, sep),
            sep == list_sep(p),
            trimmed == views(pieces@).map_values(|e: Seq<char>| trim(e)),
            pred == (|e: Seq<char>| e.len() > 0),
            views(r@) == trimmed.take(k as int).filter(pred),
        decreases pieces.len() - k,
    {
        reveal_with_fuel(Seq::<_>::filter, 1);
        let t = trim_chars(&pieces[k]);
        proof {
            assert(t@ == trimmed[k as int]);
            assert(trimmed.take(k + 1).drop_last() =~= trimmed.take(k as int));
        }
        if t.len() > 0 {
            let ghost old_r = views(r@);
            r.push(t);
            proof {
                assert(views(r@) =~= old_r.push(t@));
            }
        }
        k += 1;
    }
    assert(trimmed.take(pieces.len() as int) =~= trimmed);
    r
}

} // verus!

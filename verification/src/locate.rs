//! Where the downloader and its helper tools are looked for, and in which order.
//!
//! The file system is modelled as the set of paths known to name regular files
//! ([`FileSet`]); every search returns the first candidate, in the documented order,
//! that is in the set.
use vstd::prelude::*;
use vstd::string::StringExecFns;
use crate::platform::{deps_platform_dir_name, downloader_names, candidate_names, dir_of_entry, entry_dir, exe, exe_name, join, join_chars, parent, path_entries, path_entries_exec, path_parent, platform_dir, relative_name, Platform};
use crate::text::{str_views, chars_of, opt_chars, opt_str, opt_string_of, slice, string_of, views};

verus! {

/// Paths known to name regular files.
pub struct FileSet {
    files: Vec<Vec<char>>,
}

impl View for FileSet {
    type V = Set<Seq<char>>;

    closed spec fn view(&self) -> Set<Seq<char>> {
        views(self.files@).to_set()
    }
}

impl FileSet {
    /// No known files.
    pub fn new() -> (r: FileSet)
        ensures
            r@ == Set::<Seq<char>>::empty(),
    {
        let r = FileSet { files: Vec::new() };
        assert(r@ =~= Set::<Seq<char>>::empty());
        r
    }

    /// Records that `path` names a regular file.
    pub fn insert(&mut self, path: &str)
        ensures
            final(self)@ == old(self)@.insert(path@),
    {
        let ghost before = views(self.files@);
        self.files.push(chars_of(path));
        proof {
            assert(views(self.files@) =~= before.push(path@));
            let after = views(self.files@);
            assert forall|x: Seq<char>| after.to_set().contains(x) == before.to_set().insert(
                path@,
            ).contains(x) by {
                if before.contains(x) {
                    let k = choose|k: int| 0 <= k < before.len() && before[k] == x;
                    assert(after[k] == x);
                }
                if after.contains(x) {
                    let k = choose|k: int| 0 <= k < after.len() && after[k] == x;
                    if k < before.len() {
                        assert(before[k] == x);
                    }
                }
                if x == path@ {
                    assert(after[before.len() as int] == x);
                }
            }
            assert(after.to_set() =~= before.to_set().insert(path@));
        }
    }

    /// Whether `path` is known to name a regular file.
    pub fn contains_chars(&self, path: &Vec<char>) -> (r: bool)
        ensures
            r == self@.contains(path@),
    {
        let mut i: usize = 0;
        while i < self.files.len()
            invariant
                i <= self.files.len(),
                forall|k: int| 0 <= k < i ==> views(self.files@)[k] != path@,
            decreases self.files.len() - i,
        {
            if crate::text::eq_chars(&self.files[i], path) {
                assert(views(self.files@)[i as int] == path@);
                return true;
            }
            i += 1;
        }
        false
    }

    /// Whether `path` is known to name a regular file.
    pub fn contains(&self, path: &str) -> (r: bool)
        ensures
            r == self@.contains(path@),
    {
        self.contains_chars(&chars_of(path))
    }
}

/// The first of `cands` that is a known file.
pub open spec fn first_file(cands: Seq<Seq<char>>, files: Set<Seq<char>>) -> Option<Seq<char>>
    decreases cands.len(),
{
    if cands.len() == 0 {
        None
    } else if files.contains(cands[0]) {
        Some(cands[0])
    } else {
        first_file(cands.drop_first(), files)
    }
}

/// `name` in each of `dirs`, in order.
pub open spec fn each_joined(dirs: Seq<Seq<char>>, name: Seq<char>, p: Platform) -> Seq<Seq<char>> {
    dirs.map_values(|d: Seq<char>| join(d, name, p))
}

/// The downloader programs in `dir`, preferred first.
pub open spec fn downloader_candidates(dir: Seq<char>, p: Platform) -> Seq<Seq<char>> {
    each_joined(seq![dir], downloader_names(p)[0], p) + each_joined(seq![dir], downloader_names(p)[1], p)
}

/// The downloader found in `dir`.
pub open spec fn downloader_in(dir: Seq<char>, p: Platform, files: Set<Seq<char>>) -> Option<Seq<char>> {
    first_file(downloader_candidates(dir, p), files)
}

/// The development copy of the platform folder, two levels above the application crate's folder.
pub open spec fn dev_dependencies_dir(crate_dir: Seq<char>, p: Platform) -> Seq<char> {
    join(join(crate_dir, "../../dependencies"@, p), platform_dir(p), p)
}

/// `dir` and its `bin` subfolder, where bundled tools are looked for.
pub open spec fn bundle_dirs(deps_dir: Seq<char>, p: Platform) -> Seq<Seq<char>> {
    seq![deps_dir, join(deps_dir, "bin"@, p)]
}

/// `dir` holds both ffmpeg and ffprobe.
pub open spec fn ff_ok(dir: Seq<char>, p: Platform, files: Set<Seq<char>>) -> bool {
    files.contains(join(dir, exe("ffmpeg"@, p), p)) && files.contains(join(dir, exe("ffprobe"@, p), p))
}

/// The first of `dirs` that holds both ffmpeg and ffprobe.
pub open spec fn first_ff_dir(dirs: Seq<Seq<char>>, p: Platform, files: Set<Seq<char>>) -> Option<Seq<char>>
    decreases dirs.len(),
{
    if dirs.len() == 0 {
        None
    } else if ff_ok(dirs[0], p, files) {
        Some(dirs[0])
    } else {
        first_ff_dir(dirs.drop_first(), p, files)
    }
}

/// The first `PATH` entry where `name` is a known file.
pub open spec fn first_entry_with(
    entries: Seq<Seq<char>>,
    name: Seq<char>,
    p: Platform,
    files: Set<Seq<char>>,
) -> Option<Seq<char>>
    decreases entries.len(),
{
    if entries.len() == 0 {
        None
    } else if files.contains(join(entries[0], name, p)) {
        Some(entries[0])
    } else {
        first_entry_with(entries.drop_first(), name, p, files)
    }
}

/// Common Homebrew folders that may hold ffmpeg (Unix only).
pub open spec fn ffmpeg_fallback_dirs(p: Platform) -> Seq<Seq<char>> {
    if p == Platform::Unix {
        seq!["/opt/homebrew/bin"@, "/usr/local/bin"@, "/opt/homebrew/opt/ffmpeg/bin"@]
    } else {
        seq![]
    }
}

/// The folder passed as `--ffmpeg-location`: the bundled folder first, then the folder
/// of the first ffmpeg on `PATH` (if ffprobe is beside it), then common Homebrew folders.
pub open spec fn ffmpeg_dir(
    deps_dir: Seq<char>,
    path_var: Seq<char>,
    p: Platform,
    files: Set<Seq<char>>,
) -> Option<Seq<char>> {
    match first_ff_dir(bundle_dirs(deps_dir, p), p, files) {
        Some(d) => Some(d),
        None => {
            let on_path = match first_entry_with(path_entries(path_var, p), exe("ffmpeg"@, p), p, files) {
                Some(e) => match dir_of_entry(e, exe("ffmpeg"@, p), p) {
                    Some(d) => if ff_ok(d, p, files) {
                        Some(d)
                    } else {
                        None
                    },
                    None => None,
                },
                None => None,
            };
            match on_path {
                Some(d) => Some(d),
                None => first_ff_dir(ffmpeg_fallback_dirs(p), p, files),
            }
        },
    }
}

/// The folder of the ffmpeg found in `PATH` entry `e`, or `e` itself where the joined
/// path has no parent.
pub open spec fn ffmpeg_entry_dir(e: Seq<char>, p: Platform) -> Seq<char> {
    match dir_of_entry(e, exe("ffmpeg"@, p), p) {
        Some(d) => d,
        None => e,
    }
}

/// ffmpeg and ffprobe in each of `dirs`.
pub open spec fn ff_pairs(dirs: Seq<Seq<char>>, p: Platform) -> Seq<Seq<char>> {
    each_joined(dirs, exe("ffmpeg"@, p), p) + each_joined(dirs, exe("ffprobe"@, p), p)
}

/// Every path that [`resolve_ffmpeg_bin_dir`], [`resolve_deno_js_flag`] and
/// [`resolve_node_js_flag`] consult.
pub open spec fn tool_probes(deps_dir: Seq<char>, path_var: Seq<char>, p: Platform) -> Seq<Seq<char>> {
    let entries = path_entries(path_var, p);
    ff_pairs(bundle_dirs(deps_dir, p), p) + each_joined(entries, exe("ffmpeg"@, p), p) + ff_pairs(
        entries.map_values(|e: Seq<char>| ffmpeg_entry_dir(e, p)),
        p,
    ) + ff_pairs(ffmpeg_fallback_dirs(p), p) + runtime_candidates(
        deps_dir,
        path_var,
        exe("deno"@, p),
        deno_fallback_dirs(p),
        p,
    ) + runtime_candidates(deps_dir, path_var, exe("node"@, p), node_fallback_dirs(p), p)
}

/// Where a JavaScript runtime program is looked for, in order: the bundled folder, its
/// `bin`, each `PATH` entry, then the given fallback folders.
pub open spec fn runtime_candidates(
    deps_dir: Seq<char>,
    path_var: Seq<char>,
    name: Seq<char>,
    fallbacks: Seq<Seq<char>>,
    p: Platform,
) -> Seq<Seq<char>> {
    each_joined(bundle_dirs(deps_dir, p), name, p) + each_joined(path_entries(path_var, p), name, p)
        + each_joined(fallbacks, name, p)
}

/// Fallback folders for Deno (Unix only).
pub open spec fn deno_fallback_dirs(p: Platform) -> Seq<Seq<char>> {
    if p == Platform::Unix {
        seq!["/opt/homebrew/bin"@]
    } else {
        seq![]
    }
}

/// Fallback folders for Node.js (Unix only).
pub open spec fn node_fallback_dirs(p: Platform) -> Seq<Seq<char>> {
    if p == Platform::Unix {
        seq!["/opt/homebrew/bin"@, "/usr/local/bin"@]
    } else {
        seq![]
    }
}

/// The `--js-runtimes` value for the first Deno found: `deno:` and its path.
pub open spec fn deno_flag(deps_dir: Seq<char>, path_var: Seq<char>, p: Platform, files: Set<Seq<char>>) -> Option<Seq<char>> {
    match first_file(runtime_candidates(deps_dir, path_var, exe("deno"@, p), deno_fallback_dirs(p), p), files) {
        Some(f) => Some("deno:"@ + f),
        None => None,
    }
}

/// The `--js-runtimes` value for the first Node.js found: `node:` and its path.
pub open spec fn node_flag(deps_dir: Seq<char>, path_var: Seq<char>, p: Platform, files: Set<Seq<char>>) -> Option<Seq<char>> {
    match first_file(runtime_candidates(deps_dir, path_var, exe("node"@, p), node_fallback_dirs(p), p), files) {
        Some(f) => Some("node:"@ + f),
        None => None,
    }
}

proof fn lemma_exe_relative(base: Seq<char>, p: Platform)
    requires
        base.len() >= 2,
        base[0] != '/' && base[0] != '\\',
        base[1] != ':',
    ensures
        relative_name(exe(base, p), p),
{
    if p == Platform::Windows {
        assert((base + ".exe"@)[0] == base[0]);
        assert((base + ".exe"@)[1] == base[1]);
    }
}

/// The characters of a program name on `p`.
fn exe_chars(base: &str, p: Platform) -> (r: Vec<char>)
    ensures
        r@ == exe(base@, p),
{
    let s = exe_name(base, p);
    chars_of(s.as_str())
}

/// The first of `cands` that is a known file.
fn first_file_exec(cands: &Vec<Vec<char>>, files: &FileSet) -> (r: Option<Vec<char>>)
    ensures
        opt_chars(r) == first_file(views(cands@), files@),
{
    let mut i: usize = 0;
    proof {
        assert(views(cands@).skip(0) =~= views(cands@));
    }
    while i < cands.len()
        invariant
            i <= cands.len(),
            first_file(views(cands@), files@) == first_file(views(cands@).skip(i as int), files@),
        decreases cands.len() - i,
    {
        let ghost rest = views(cands@).skip(i as int);
        assert(rest[0] == cands@[i as int]@);
        if files.contains_chars(&cands[i]) {
            return Some(crate::text::slice(&cands[i], 0, cands[i].len()));
        }
        assert(rest.drop_first() =~= views(cands@).skip(i + 1));
        i += 1;
    }
    None
}

/// `name` in each of `dirs`.
fn each_joined_exec(dirs: &Vec<Vec<char>>, name: &Vec<char>, p: Platform) -> (r: Vec<Vec<char>>)
    requires
        relative_name(name@, p),
    ensures
        views(r@) == each_joined(views(dirs@), name@, p),
{
    let mut r: Vec<Vec<char>> = Vec::new();
    let mut i: usize = 0;
    while i < dirs.len()
        invariant
            i <= dirs.len(),
            relative_name(name@, p),
            views(r@) == each_joined(views(dirs@).take(i as int), name@, p),
        decreases dirs.len() - i,
    {
        let ghost before = views(r@);
        let j = join_chars(&dirs[i], name, p);
        r.push(j);
        i += 1;
        proof {
            assert(views(r@) =~= before.push(j@));
            assert(each_joined(views(dirs@).take(i as int), name@, p) =~= each_joined(
                views(dirs@).take(i - 1),
                name@,
                p,
            ).push(join(dirs@[i - 1]@, name@, p)));
        }
    }
    assert(views(dirs@).take(dirs.len() as int) =~= views(dirs@));
    r
}

/// `a` followed by `b`.
fn concat_lists(a: Vec<Vec<char>>, b: Vec<Vec<char>>) -> (r: Vec<Vec<char>>)
    ensures
        views(r@) == views(a@) + views(b@),
{
    let ghost a0 = a@;
    let ghost b0 = b@;
    let mut r = a;
    let mut b = b;
    r.append(&mut b);
    assert(views(r@) =~= views(a0) + views(b0));
    r
}

/// A one-element list.
fn single(v: Vec<char>) -> (r: Vec<Vec<char>>)
    ensures
        views(r@) == seq![v@],
{
    let mut r: Vec<Vec<char>> = Vec::new();
    r.push(v);
    assert(views(r@) =~= seq![v@]);
    r
}

/// The bundle folder and its `bin` subfolder.
fn bundle_dirs_exec(deps_dir: &Vec<char>, p: Platform) -> (r: Vec<Vec<char>>)
    ensures
        views(r@) == bundle_dirs(deps_dir@, p),
{
    let bin = chars_of("bin");
    proof {
        reveal_strlit("bin");
    }
    let mut r: Vec<Vec<char>> = Vec::new();
    r.push(crate::text::slice(deps_dir, 0, deps_dir.len()));
    r.push(join_chars(deps_dir, &bin, p));
    assert(deps_dir@.subrange(0, deps_dir@.len() as int) =~= deps_dir@);
    assert(views(r@) =~= bundle_dirs(deps_dir@, p));
    r
}

/// The downloader programs in `dir`, preferred first.
fn downloader_candidates_exec(dir: &Vec<char>, p: Platform) -> (r: Vec<Vec<char>>)
    ensures
        views(r@) == downloader_candidates(dir@, p),
{
    let y = exe_chars("yt-dlp", p);
    let d = exe_chars("youtube-dl", p);
    proof {
        reveal_strlit("yt-dlp");
        reveal_strlit("youtube-dl");
        lemma_exe_relative("yt-dlp"@, p);
        lemma_exe_relative("youtube-dl"@, p);
    }
    let dirs = single(crate::text::slice(dir, 0, dir.len()));
    assert(dir@.subrange(0, dir@.len() as int) =~= dir@);
    concat_lists(each_joined_exec(&dirs, &y, p), each_joined_exec(&dirs, &d, p))
}

/// The paths to test before [`first_existing_in_dir`]: the downloader programs in `dir`.
pub fn downloader_probe_paths(dir: &str, p: Platform) -> (r: Vec<String>)
    ensures
        str_views(r@) == downloader_candidates(dir@, p),
{
    strings_of(&downloader_candidates_exec(&chars_of(dir), p))
}

/// The strings of a list of character vectors.
fn strings_of(v: &Vec<Vec<char>>) -> (r: Vec<String>)
    ensures
        str_views(r@) == views(v@),
{
    let mut r: Vec<String> = Vec::new();
    let mut i: usize = 0;
    while i < v.len()
        invariant
            i <= v.len(),
            str_views(r@) == views(v@).take(i as int),
        decreases v.len() - i,
    {
        let ghost before = r@;
        let s = string_of(&v[i]);
        r.push(s);
        i += 1;
        proof {
            assert(r@ == before.push(s));
            assert(str_views(before).len() == before.len());
            assert(before.len() == i - 1);
            assert(r@[i - 1] == s);
            assert(str_views(r@)[i - 1] == s@);
            assert(s@ == v@[i - 1]@);
            assert(views(v@).take(i as int)[i - 1] == v@[i - 1]@);
            assert forall|k: int| 0 <= k < i implies str_views(r@)[k] == views(v@).take(
                i as int,
            )[k] by {
                if k < i - 1 {
                    assert(str_views(before)[k] == views(v@).take(i - 1)[k]);
                }
            }
            assert(str_views(r@) =~= views(v@).take(i as int));
        }
    }
    assert(views(v@).take(v.len() as int) =~= views(v@));
    r
}

/// The downloader in `dir`: `yt-dlp` if present, else `youtube-dl`.
pub fn first_existing_in_dir(dir: &str, p: Platform, files: &FileSet) -> (r: Option<String>)
    ensures
        opt_str(r) == downloader_in(dir@, p, files@),
{
    let cands = downloader_candidates_exec(&chars_of(dir), p);
    opt_string_of(&first_file_exec(&cands, files))
}

/// The development copy of the platform folder, as characters.
fn dev_dependencies_dir_exec(crate_dir: &Vec<char>, p: Platform) -> (r: Vec<char>)
    ensures
        r@ == dev_dependencies_dir(crate_dir@, p),
{
    let up = chars_of("../../dependencies");
    let plat = chars_of(deps_platform_dir_name(p));
    proof {
        reveal_strlit("../../dependencies");
        reveal_strlit("windows");
        reveal_strlit("mac");
    }
    let base = join_chars(crate_dir, &up, p);
    join_chars(&base, &plat, p)
}

/// The development copy of the platform folder (`<crate>/../../dependencies/<platform>`).
pub fn dev_dependencies_path(crate_dir: &str, p: Platform) -> (r: String)
    ensures
        r@ == dev_dependencies_dir(crate_dir@, p),
{
    string_of(&dev_dependencies_dir_exec(&chars_of(crate_dir), p))
}

/// While developing, the repository's platform folder and the downloader in it, if any.
pub fn try_dev_dependencies(crate_dir: &str, p: Platform, files: &FileSet) -> (r: Option<(String, String)>)
    ensures
        match downloader_in(dev_dependencies_dir(crate_dir@, p), p, files@) {
            Some(f) => r matches Some((d, g)) && d@ == dev_dependencies_dir(crate_dir@, p) && g@ == f,
            None => r is None,
        },
{
    let base = dev_dependencies_dir_exec(&chars_of(crate_dir), p);
    let cands = downloader_candidates_exec(&base, p);
    match first_file_exec(&cands, files) {
        Some(f) => Some((string_of(&base), string_of(&f))),
        None => None,
    }
}

/// Whether `dir` holds both ffmpeg and ffprobe (characters).
fn ff_ok_exec(dir: &Vec<char>, p: Platform, files: &FileSet) -> (b: bool)
    ensures
        b == ff_ok(dir@, p, files@),
{
    let ffm = exe_chars("ffmpeg", p);
    let ffp = exe_chars("ffprobe", p);
    proof {
        reveal_strlit("ffmpeg");
        reveal_strlit("ffprobe");
        lemma_exe_relative("ffmpeg"@, p);
        lemma_exe_relative("ffprobe"@, p);
    }
    files.contains_chars(&join_chars(dir, &ffm, p)) && files.contains_chars(&join_chars(dir, &ffp, p))
}

/// Whether `dir` holds both ffmpeg and ffprobe.
pub fn ff_dir_and_probe_ok(dir: &str, p: Platform, files: &FileSet) -> (b: bool)
    ensures
        b == ff_ok(dir@, p, files@),
{
    ff_ok_exec(&chars_of(dir), p, files)
}

/// The first of `dirs` that holds both ffmpeg and ffprobe.
fn first_ff_dir_exec(dirs: &Vec<Vec<char>>, p: Platform, files: &FileSet) -> (r: Option<Vec<char>>)
    ensures
        opt_chars(r) == first_ff_dir(views(dirs@), p, files@),
{
    let mut i: usize = 0;
    proof {
        assert(views(dirs@).skip(0) =~= views(dirs@));
    }
    while i < dirs.len()
        invariant
            i <= dirs.len(),
            first_ff_dir(views(dirs@), p, files@) == first_ff_dir(views(dirs@).skip(i as int), p, files@),
        decreases dirs.len() - i,
    {
        let ghost rest = views(dirs@).skip(i as int);
        assert(rest[0] == dirs@[i as int]@);
        if ff_ok_exec(&dirs[i], p, files) {
            return Some(crate::text::slice(&dirs[i], 0, dirs[i].len()));
        }
        assert(rest.drop_first() =~= views(dirs@).skip(i + 1));
        i += 1;
    }
    None
}

/// The bundled folder for ffmpeg: `deps_dir` or its `bin`, whichever holds both programs first.
pub fn bundled_ffmpeg_dir(deps_dir: &str, p: Platform, files: &FileSet) -> (r: Option<String>)
    ensures
        opt_str(r) == first_ff_dir(bundle_dirs(deps_dir@, p), p, files@),
{
    let dirs = bundle_dirs_exec(&chars_of(deps_dir), p);
    opt_string_of(&first_ff_dir_exec(&dirs, p, files))
}

/// The first `PATH` entry where `name` is a known file.
fn first_entry_with_exec(entries: &Vec<Vec<char>>, name: &Vec<char>, p: Platform, files: &FileSet) -> (r: Option<Vec<char>>)
    requires
        relative_name(name@, p),
    ensures
        opt_chars(r) == first_entry_with(views(entries@), name@, p, files@),
{
    let mut i: usize = 0;
    proof {
        assert(views(entries@).skip(0) =~= views(entries@));
    }
    while i < entries.len()
        invariant
            i <= entries.len(),
            relative_name(name@, p),
            first_entry_with(views(entries@), name@, p, files@) == first_entry_with(
                views(entries@).skip(i as int),
                name@,
                p,
                files@,
            ),
        decreases entries.len() - i,
    {
        let ghost rest = views(entries@).skip(i as int);
        assert(rest[0] == entries@[i as int]@);
        if files.contains_chars(&join_chars(&entries[i], name, p)) {
            return Some(crate::text::slice(&entries[i], 0, entries[i].len()));
        }
        assert(rest.drop_first() =~= views(entries@).skip(i + 1));
        i += 1;
    }
    None
}

/// A list of literal folders.
fn literal_dirs(a: &str, b: &str, c: &str, n: usize) -> (r: Vec<Vec<char>>)
    requires
        n <= 3,
    ensures
        views(r@) == seq![a@, b@, c@].take(n as int),
{
    let mut r: Vec<Vec<char>> = Vec::new();
    if n >= 1 {
        r.push(chars_of(a));
    }
    if n >= 2 {
        r.push(chars_of(b));
    }
    if n >= 3 {
        r.push(chars_of(c));
    }
    assert(views(r@) =~= seq![a@, b@, c@].take(n as int));
    r
}

/// Fallback folders for ffmpeg.
fn ffmpeg_fallback_dirs_exec(p: Platform) -> (r: Vec<Vec<char>>)
    ensures
        views(r@) == ffmpeg_fallback_dirs(p),
{
    let n: usize = if p == Platform::Unix { 3 } else { 0 };
    let r = literal_dirs("/opt/homebrew/bin", "/usr/local/bin", "/opt/homebrew/opt/ffmpeg/bin", n);
    assert(views(r@) =~= ffmpeg_fallback_dirs(p));
    r
}

/// Fallback folders for Deno.
fn deno_fallback_dirs_exec(p: Platform) -> (r: Vec<Vec<char>>)
    ensures
        views(r@) == deno_fallback_dirs(p),
{
    let n: usize = if p == Platform::Unix { 1 } else { 0 };
    let r = literal_dirs("/opt/homebrew/bin", "", "", n);
    assert(views(r@) =~= deno_fallback_dirs(p));
    r
}

/// Fallback folders for Node.js.
fn node_fallback_dirs_exec(p: Platform) -> (r: Vec<Vec<char>>)
    ensures
        views(r@) == node_fallback_dirs(p),
{
    let n: usize = if p == Platform::Unix { 2 } else { 0 };
    let r = literal_dirs("/opt/homebrew/bin", "/usr/local/bin", "", n);
    assert(views(r@) =~= node_fallback_dirs(p));
    r
}

/// The folder to pass as `--ffmpeg-location`, if any.
pub fn resolve_ffmpeg_bin_dir(deps_dir: &str, path_var: &str, p: Platform, files: &FileSet) -> (r: Option<String>)
    ensures
        opt_str(r) == ffmpeg_dir(deps_dir@, path_var@, p, files@),
{
    let bundle = bundle_dirs_exec(&chars_of(deps_dir), p);
    if let Some(d) = first_ff_dir_exec(&bundle, p, files) {
        return Some(string_of(&d));
    }
    let entries = path_entries_exec(&chars_of(path_var), p);
    let ffm = exe_chars("ffmpeg", p);
    proof {
        reveal_strlit("ffmpeg");
        lemma_exe_relative("ffmpeg"@, p);
    }
    if let Some(e) = first_entry_with_exec(&entries, &ffm, p, files) {
        if let Some(d) = entry_dir(&e, &ffm, p) {
            if ff_ok_exec(&d, p, files) {
                return Some(string_of(&d));
            }
        }
    }
    let fallback = ffmpeg_fallback_dirs_exec(p);
    opt_string_of(&first_ff_dir_exec(&fallback, p, files))
}

/// Where a runtime program is looked for, in order.
fn runtime_candidates_exec(deps_dir: &Vec<char>, path_var: &Vec<char>, name: &Vec<char>, fallbacks: &Vec<Vec<char>>, p: Platform) -> (r: Vec<Vec<char>>)
    requires
        relative_name(name@, p),
    ensures
        views(r@) == runtime_candidates(deps_dir@, path_var@, name@, views(fallbacks@), p),
{
    let bundle = bundle_dirs_exec(deps_dir, p);
    let entries = path_entries_exec(path_var, p);
    let a = each_joined_exec(&bundle, name, p);
    let b = each_joined_exec(&entries, name, p);
    let c = each_joined_exec(fallbacks, name, p);
    concat_lists(concat_lists(a, b), c)
}

/// `prefix` followed by the text of `v`.
fn prefixed(prefix: &str, v: &Vec<char>) -> (r: String)
    ensures
        r@ == prefix@ + v@,
{
    let mut r = String::from_str(prefix);
    let rest = string_of(v);
    r.append(rest.as_str());
    r
}

/// The `--js-runtimes` value for Deno (`deno:<path>`), if a Deno program is found.
pub fn resolve_deno_js_flag(deps_dir: &str, path_var: &str, p: Platform, files: &FileSet) -> (r: Option<String>)
    ensures
        opt_str(r) == deno_flag(deps_dir@, path_var@, p, files@),
{
    let name = exe_chars("deno", p);
    proof {
        reveal_strlit("deno");
        lemma_exe_relative("deno"@, p);
    }
    let fallbacks = deno_fallback_dirs_exec(p);
    let cands = runtime_candidates_exec(&chars_of(deps_dir), &chars_of(path_var), &name, &fallbacks, p);
    match first_file_exec(&cands, files) {
        Some(f) => Some(prefixed("deno:", &f)),
        None => None,
    }
}

/// The `--js-runtimes` value for Node.js (`node:<path>`), if a Node.js program is found.
pub fn resolve_node_js_flag(deps_dir: &str, path_var: &str, p: Platform, files: &FileSet) -> (r: Option<String>)
    ensures
        opt_str(r) == node_flag(deps_dir@, path_var@, p, files@),
{
    let name = exe_chars("node", p);
    proof {
        reveal_strlit("node");
        lemma_exe_relative("node"@, p);
    }
    let fallbacks = node_fallback_dirs_exec(p);
    let cands = runtime_candidates_exec(&chars_of(deps_dir), &chars_of(path_var), &name, &fallbacks, p);
    match first_file_exec(&cands, files) {
        Some(f) => Some(prefixed("node:", &f)),
        None => None,
    }
}

/// ffmpeg and ffprobe in each of `dirs`.
fn ff_pairs_exec(dirs: &Vec<Vec<char>>, p: Platform) -> (r: Vec<Vec<char>>)
    ensures
        views(r@) == ff_pairs(views(dirs@), p),
{
    let ffm = exe_chars("ffmpeg", p);
    let ffp = exe_chars("ffprobe", p);
    proof {
        reveal_strlit("ffmpeg");
        reveal_strlit("ffprobe");
        lemma_exe_relative("ffmpeg"@, p);
        lemma_exe_relative("ffprobe"@, p);
    }
    concat_lists(each_joined_exec(dirs, &ffm, p), each_joined_exec(dirs, &ffp, p))
}

/// The directory of each `PATH` entry's file.
fn entry_dirs_exec(entries: &Vec<Vec<char>>, p: Platform) -> (r: Vec<Vec<char>>)
    ensures
        views(r@) == views(entries@).map_values(|e: Seq<char>| ffmpeg_entry_dir(e, p)),
{
    let ffm = exe_chars("ffmpeg", p);
    proof {
        reveal_strlit("ffmpeg");
        lemma_exe_relative("ffmpeg"@, p);
    }
    let mut r: Vec<Vec<char>> = Vec::new();
    let mut i: usize = 0;
    while i < entries.len()
        invariant
            i <= entries.len(),
            ffm@ == exe("ffmpeg"@, p),
            relative_name(ffm@, p),
            views(r@) == views(entries@).take(i as int).map_values(|e: Seq<char>| ffmpeg_entry_dir(e, p)),
        decreases entries.len() - i,
    {
        let ghost before = views(r@);
        let d = match entry_dir(&entries[i], &ffm, p) {
            Some(d) => d,
            None => {
                assert(entries@[i as int]@.subrange(0, entries@[i as int]@.len() as int) =~= entries@[i as int]@);
                slice(&entries[i], 0, entries[i].len())
            },
        };
        r.push(d);
        i += 1;
        proof {
            assert(views(r@) =~= before.push(d@));
            assert(views(entries@).take(i as int).map_values(|e: Seq<char>| ffmpeg_entry_dir(e, p))
                =~= views(entries@).take(i - 1).map_values(|e: Seq<char>| ffmpeg_entry_dir(e, p)).push(
                ffmpeg_entry_dir(entries@[i - 1]@, p),
            ));
        }
    }
    assert(views(entries@).take(entries.len() as int) =~= views(entries@));
    r
}

/// The paths to test before [`resolve_ffmpeg_bin_dir`], [`resolve_deno_js_flag`] and
/// [`resolve_node_js_flag`]: every path those searches consult.
pub fn tool_probe_paths(deps_dir: &str, path_var: &str, p: Platform) -> (r: Vec<String>)
    ensures
        str_views(r@) == tool_probes(deps_dir@, path_var@, p),
{
    let deps = chars_of(deps_dir);
    let pv = chars_of(path_var);
    let entries = path_entries_exec(&pv, p);
    let ffm = exe_chars("ffmpeg", p);
    let deno = exe_chars("deno", p);
    let node = exe_chars("node", p);
    proof {
        reveal_strlit("ffmpeg");
        reveal_strlit("deno");
        reveal_strlit("node");
        lemma_exe_relative("ffmpeg"@, p);
        lemma_exe_relative("deno"@, p);
        lemma_exe_relative("node"@, p);
    }
    let a = ff_pairs_exec(&bundle_dirs_exec(&deps, p), p);
    let b = each_joined_exec(&entries, &ffm, p);
    let c = ff_pairs_exec(&entry_dirs_exec(&entries, p), p);
    let d = ff_pairs_exec(&ffmpeg_fallback_dirs_exec(p), p);
    let e = runtime_candidates_exec(&deps, &pv, &deno, &deno_fallback_dirs_exec(p), p);
    let f = runtime_candidates_exec(&deps, &pv, &node, &node_fallback_dirs_exec(p), p);
    let all = concat_lists(concat_lists(concat_lists(concat_lists(concat_lists(a, b), c), d), e), f);
    strings_of(&all)
}

/// `files` and `known` agree on every path in `c`.
pub open spec fn agree_on(c: Seq<Seq<char>>, files: Set<Seq<char>>, known: Set<Seq<char>>) -> bool {
    forall|i: int| 0 <= i < c.len() ==> (files.contains(#[trigger] c[i]) == known.contains(c[i]))
}

proof fn lemma_first_file_agree(c: Seq<Seq<char>>, files: Set<Seq<char>>, known: Set<Seq<char>>)
    requires
        agree_on(c, files, known),
    ensures
        first_file(c, files) == first_file(c, known),
    decreases c.len(),
{
    if c.len() > 0 {
        assert(files.contains(c[0]) == known.contains(c[0]));
        assert forall|i: int| 0 <= i < c.drop_first().len() implies (files.contains(
            #[trigger] c.drop_first()[i],
        ) == known.contains(c.drop_first()[i])) by {
            assert(c.drop_first()[i] == c[i + 1]);
        }
        lemma_first_file_agree(c.drop_first(), files, known);
    }
}

/// `files` and `known` agree on ffmpeg and ffprobe in each of `dirs`.
pub open spec fn agree_on_dirs(dirs: Seq<Seq<char>>, p: Platform, files: Set<Seq<char>>, known: Set<Seq<char>>) -> bool {
    forall|i: int| 0 <= i < dirs.len() ==> ff_ok(#[trigger] dirs[i], p, files) == ff_ok(dirs[i], p, known)
}

proof fn lemma_first_ff_dir_agree(dirs: Seq<Seq<char>>, p: Platform, files: Set<Seq<char>>, known: Set<Seq<char>>)
    requires
        agree_on_dirs(dirs, p, files, known),
    ensures
        first_ff_dir(dirs, p, files) == first_ff_dir(dirs, p, known),
    decreases dirs.len(),
{
    if dirs.len() > 0 {
        assert(ff_ok(dirs[0], p, files) == ff_ok(dirs[0], p, known));
        assert forall|i: int| 0 <= i < dirs.drop_first().len() implies ff_ok(
            #[trigger] dirs.drop_first()[i],
            p,
            files,
        ) == ff_ok(dirs.drop_first()[i], p, known) by {
            assert(dirs.drop_first()[i] == dirs[i + 1]);
        }
        lemma_first_ff_dir_agree(dirs.drop_first(), p, files, known);
    }
}

proof fn lemma_ff_pairs_agree(dirs: Seq<Seq<char>>, p: Platform, files: Set<Seq<char>>, known: Set<Seq<char>>)
    requires
        agree_on(ff_pairs(dirs, p), files, known),
    ensures
        agree_on_dirs(dirs, p, files, known),
{
    let pairs = ff_pairs(dirs, p);
    assert forall|i: int| 0 <= i < dirs.len() implies ff_ok(#[trigger] dirs[i], p, files) == ff_ok(
        dirs[i],
        p,
        known,
    ) by {
        assert(pairs[i] == join(dirs[i], exe("ffmpeg"@, p), p));
        assert(pairs[dirs.len() + i] == join(dirs[i], exe("ffprobe"@, p), p));
    }
}

proof fn lemma_first_entry_agree(
    entries: Seq<Seq<char>>,
    name: Seq<char>,
    p: Platform,
    files: Set<Seq<char>>,
    known: Set<Seq<char>>,
)
    requires
        agree_on(each_joined(entries, name, p), files, known),
    ensures
        first_entry_with(entries, name, p, files) == first_entry_with(entries, name, p, known),
    decreases entries.len(),
{
    if entries.len() > 0 {
        let j = each_joined(entries, name, p);
        assert(j[0] == join(entries[0], name, p));
        let rest = entries.drop_first();
        assert forall|i: int| 0 <= i < each_joined(rest, name, p).len() implies (files.contains(
            #[trigger] each_joined(rest, name, p)[i],
        ) == known.contains(each_joined(rest, name, p)[i])) by {
            assert(each_joined(rest, name, p)[i] == j[i + 1]);
        }
        lemma_first_entry_agree(rest, name, p, files, known);
    }
}

/// Agreement on a concatenation gives agreement on each part.
proof fn lemma_agree_split(a: Seq<Seq<char>>, b: Seq<Seq<char>>, files: Set<Seq<char>>, known: Set<Seq<char>>)
    requires
        agree_on(a + b, files, known),
    ensures
        agree_on(a, files, known),
        agree_on(b, files, known),
{
    assert forall|i: int| 0 <= i < a.len() implies (files.contains(#[trigger] a[i]) == known.contains(a[i])) by {
        assert((a + b)[i] == a[i]);
    }
    assert forall|i: int| 0 <= i < b.len() implies (files.contains(#[trigger] b[i]) == known.contains(b[i])) by {
        assert((a + b)[a.len() + i] == b[i]);
    }
}

/// Only the probed paths matter: the three tool searches give the same answers when the
/// known files are cut down to those that [`tool_probe_paths`] lists. Testing just those
/// paths is therefore enough.
pub proof fn law_tool_searches_need_only_probed_paths(
    deps_dir: Seq<char>,
    path_var: Seq<char>,
    p: Platform,
    files: Set<Seq<char>>,
)
    ensures
        ffmpeg_dir(deps_dir, path_var, p, files) == ffmpeg_dir(
            deps_dir,
            path_var,
            p,
            files.intersect(tool_probes(deps_dir, path_var, p).to_set()),
        ),
        deno_flag(deps_dir, path_var, p, files) == deno_flag(
            deps_dir,
            path_var,
            p,
            files.intersect(tool_probes(deps_dir, path_var, p).to_set()),
        ),
        node_flag(deps_dir, path_var, p, files) == node_flag(
            deps_dir,
            path_var,
            p,
            files.intersect(tool_probes(deps_dir, path_var, p).to_set()),
        ),
{
    let probes = tool_probes(deps_dir, path_var, p);
    let known = files.intersect(probes.to_set());
    assert forall|i: int| 0 <= i < probes.len() implies (files.contains(#[trigger] probes[i])
        == known.contains(probes[i])) by {
        assert(probes.to_set().contains(probes[i]));
    }
    let entries = path_entries(path_var, p);
    let a = ff_pairs(bundle_dirs(deps_dir, p), p);
    let b = each_joined(entries, exe("ffmpeg"@, p), p);
    let c = ff_pairs(entries.map_values(|e: Seq<char>| ffmpeg_entry_dir(e, p)), p);
    let d = ff_pairs(ffmpeg_fallback_dirs(p), p);
    let e = runtime_candidates(deps_dir, path_var, exe("deno"@, p), deno_fallback_dirs(p), p);
    let f = runtime_candidates(deps_dir, path_var, exe("node"@, p), node_fallback_dirs(p), p);
    assert(probes == a + b + c + d + e + f);
    lemma_agree_split(a + b + c + d + e, f, files, known);
    lemma_agree_split(a + b + c + d, e, files, known);
    lemma_agree_split(a + b + c, d, files, known);
    lemma_agree_split(a + b, c, files, known);
    lemma_agree_split(a, b, files, known);
    lemma_ff_pairs_agree(bundle_dirs(deps_dir, p), p, files, known);
    lemma_first_ff_dir_agree(bundle_dirs(deps_dir, p), p, files, known);
    lemma_ff_pairs_agree(ffmpeg_fallback_dirs(p), p, files, known);
    lemma_first_ff_dir_agree(ffmpeg_fallback_dirs(p), p, files, known);
    lemma_first_entry_agree(entries, exe("ffmpeg"@, p), p, files, known);
    let dirs = entries.map_values(|e: Seq<char>| ffmpeg_entry_dir(e, p));
    lemma_ff_pairs_agree(dirs, p, files, known);
    match first_entry_with(entries, exe("ffmpeg"@, p), p, files) {
        Some(en) => {
            lemma_first_entry_is_entry(entries, exe("ffmpeg"@, p), p, files);
            let k = choose|k: int| 0 <= k < entries.len() && entries[k] == en;
            assert(dirs[k] == ffmpeg_entry_dir(en, p));
            assert(ff_ok(dirs[k], p, files) == ff_ok(dirs[k], p, known));
        },
        None => {},
    }
    lemma_first_file_agree(e, files, known);
    lemma_first_file_agree(f, files, known);
}

proof fn lemma_first_entry_is_entry(entries: Seq<Seq<char>>, name: Seq<char>, p: Platform, files: Set<Seq<char>>)
    ensures
        first_entry_with(entries, name, p, files) matches Some(e) ==> files.contains(join(e, name, p))
            && exists|k: int| 0 <= k < entries.len() && entries[k] == e,
    decreases entries.len(),
{
    if entries.len() > 0 && !files.contains(join(entries[0], name, p)) {
        lemma_first_entry_is_entry(entries.drop_first(), name, p, files);
        if let Some(e) = first_entry_with(entries, name, p, files) {
            let k = choose|k: int| 0 <= k < entries.drop_first().len() && entries.drop_first()[k] == e;
            assert(entries[k + 1] == e);
        }
    } else if entries.len() > 0 {
        assert(entries[0] == entries[0]);
    }
}

/// yt-dlp is preferred: when it is in the folder, it is the downloader chosen.
pub proof fn law_ytdlp_preferred(dir: Seq<char>, p: Platform, files: Set<Seq<char>>)
    ensures
        files.contains(join(dir, downloader_names(p)[0], p)) ==> downloader_in(dir, p, files) == Some(
            join(dir, downloader_names(p)[0], p),
        ),
        !files.contains(join(dir, downloader_names(p)[0], p)) ==> downloader_in(dir, p, files) == (
        if files.contains(join(dir, downloader_names(p)[1], p)) {
            Some(join(dir, downloader_names(p)[1], p))
        } else {
            None
        }),
{
    reveal_with_fuel(first_file, 3);
    let c = downloader_candidates(dir, p);
    assert(c[0] == join(dir, downloader_names(p)[0], p));
    assert(c[1] == join(dir, downloader_names(p)[1], p));
    assert(c.len() == 2);
    assert(c.drop_first()[0] == c[1]);
    assert(c.drop_first().drop_first().len() == 0);
    assert(first_file(c.drop_first().drop_first(), files) is None);
}

/// The bundled tools come first: when the bundled folder holds ffmpeg and ffprobe, it is
/// the ffmpeg folder whatever `PATH` holds.
pub proof fn law_bundled_ffmpeg_first(deps_dir: Seq<char>, path_var: Seq<char>, p: Platform, files: Set<Seq<char>>)
    ensures
        ff_ok(deps_dir, p, files) ==> ffmpeg_dir(deps_dir, path_var, p, files) == Some(deps_dir),
{
}

/// Where the application's resources hold a downloader program: `dependencies/<platform>/<name>`.
pub open spec fn resource_path(p: Platform, name: Seq<char>) -> Seq<char> {
    "dependencies/"@ + platform_dir(p) + "/"@ + name
}

/// The downloader programs among the application's resources, preferred first.
pub fn downloader_resource_paths(p: Platform) -> (r: Vec<String>)
    ensures
        str_views(r@) == seq![resource_path(p, downloader_names(p)[0]), resource_path(p, downloader_names(p)[1])],
{
    let names = candidate_names(p);
    let mut r: Vec<String> = Vec::new();
    let mut i: usize = 0;
    while i < 2
        invariant
            i <= 2,
            names@.len() == 2,
            names@[0]@ == downloader_names(p)[0],
            names@[1]@ == downloader_names(p)[1],
            str_views(r@) == seq![resource_path(p, downloader_names(p)[0]), resource_path(p, downloader_names(p)[1])].take(i as int),
        decreases 2 - i,
    {
        let mut s = String::from_str("dependencies/");
        s.append(deps_platform_dir_name(p));
        s.append("/");
        s.append(names[i].as_str());
        let ghost before = r@;
        r.push(s);
        i += 1;
        proof {
            assert(str_views(r@) =~= str_views(before).push(s@));
        }
    }
    r
}

/// The texts of optional strings.
pub open spec fn opt_strs(v: Seq<Option<String>>) -> Seq<Option<Seq<char>>> {
    v.map_values(|o: Option<String>| opt_str(o))
}

/// The first of the `resolved` resource paths that is a known file and has a parent:
/// that parent (the working folder) and the file. A candidate that could not be
/// resolved is `None` and is passed over, as is one without a parent.
pub open spec fn resource_pick(resolved: Seq<Option<Seq<char>>>, p: Platform, files: Set<Seq<char>>) -> Option<(Seq<char>, Seq<char>)>
    decreases resolved.len(),
{
    if resolved.len() == 0 {
        None
    } else {
        match resolved[0] {
            Some(f) => if files.contains(f) && parent(f, p) is Some {
                Some((parent(f, p)->0, f))
            } else {
                resource_pick(resolved.drop_first(), p, files)
            },
            None => resource_pick(resolved.drop_first(), p, files),
        }
    }
}

/// Each resolved path of `resolved`.
pub open spec fn resolved_paths(resolved: Seq<Option<Seq<char>>>) -> Set<Seq<char>> {
    Set::new(|f: Seq<char>| exists|i: int| 0 <= i < resolved.len() && resolved[i] == Some(f))
}

proof fn lemma_resource_pick_agree(
    resolved: Seq<Option<Seq<char>>>,
    p: Platform,
    files: Set<Seq<char>>,
    known: Set<Seq<char>>,
)
    requires
        forall|i: int, f: Seq<char>| 0 <= i < resolved.len() && resolved[i] == Some(f) ==> (files.contains(f)
            == known.contains(f)),
    ensures
        resource_pick(resolved, p, files) == resource_pick(resolved, p, known),
    decreases resolved.len(),
{
    if resolved.len() > 0 {
        let rest = resolved.drop_first();
        assert forall|i: int, f: Seq<char>| 0 <= i < rest.len() && rest[i] == Some(f) implies (files.contains(f)
            == known.contains(f)) by {
            assert(resolved[i + 1] == Some(f));
        }
        lemma_resource_pick_agree(rest, p, files, known);
    }
}

/// The resource search needs to know, of the file system, only which resolved paths name
/// files: narrowing the known files to those paths gives the same result.
pub proof fn law_resource_pick_needs_only_resolved_paths(
    resolved: Seq<Option<Seq<char>>>,
    p: Platform,
    files: Set<Seq<char>>,
)
    ensures
        resource_pick(resolved, p, files) == resource_pick(
            resolved,
            p,
            files.intersect(resolved_paths(resolved)),
        ),
{
    let known = files.intersect(resolved_paths(resolved));
    assert forall|i: int, f: Seq<char>| 0 <= i < resolved.len() && resolved[i] == Some(f) implies (files.contains(f)
        == known.contains(f)) by {
        assert(resolved_paths(resolved).contains(f));
    }
    lemma_resource_pick_agree(resolved, p, files, known);
}

/// The texts of an optional pair of strings.
pub open spec fn opt_pair(o: Option<(String, String)>) -> Option<(Seq<char>, Seq<char>)> {
    match o {
        Some((a, b)) => Some((a@, b@)),
        None => None,
    }
}

/// The working folder and program among the resolved resource paths of
/// [`downloader_resource_paths`] (`None` where a path could not be resolved).
pub fn pick_resource_downloader(resolved: &Vec<Option<String>>, p: Platform, files: &FileSet) -> (r: Option<(String, String)>)
    ensures
        opt_pair(r) == resource_pick(opt_strs(resolved@), p, files@),
{
    let ghost all = opt_strs(resolved@);
    let mut i: usize = 0;
    assert(all.skip(0) =~= all);
    while i < resolved.len()
        invariant
            i <= resolved.len(),
            all == opt_strs(resolved@),
            resource_pick(all, p, files@) == resource_pick(all.skip(i as int), p, files@),
        decreases resolved.len() - i,
    {
        proof {
            assert(all.skip(i as int).drop_first() =~= all.skip(i + 1));
            assert(all.skip(i as int)[0] == opt_str(resolved@[i as int]));
        }
        if let Some(f) = &resolved[i] {
            let fc = chars_of(f.as_str());
            if files.contains_chars(&fc) {
                if let Some(d) = path_parent(&fc, p) {
                    return Some((string_of(&d), string_of(&fc)));
                }
            }
        }
        i += 1;
    }
    proof {
        assert(all.skip(i as int).len() == 0);
    }
    None
}

/// The downloader names as a list: `a, b`.
pub open spec fn names_listed(p: Platform) -> Seq<char> {
    downloader_names(p)[0] + ", "@ + downloader_names(p)[1]
}

/// The message when no downloader is found: in development, the repository folder it was
/// expected in; otherwise the resources folder.
pub open spec fn missing_downloader_text(p: Platform, dev_dir: Option<Seq<char>>) -> Seq<char> {
    match dev_dir {
        Some(d) => "No hay descargador en "@ + d + ". Añade uno de ["@ + names_listed(p)
            + "] ahí. Se recomienda yt-dlp (https://github.com/yt-dlp/yt-dlp#release-files )."@,
        None => "No hay descargador incluido. Debe existir uno de ["@ + names_listed(p)
            + "] en Resources, carpeta dependencies/"@ + platform_dir(p) + "/."@,
    }
}

/// The message when no downloader is found (`dev_dir` is the development folder when
/// running a development build).
pub fn missing_downloader_message(p: Platform, dev_dir: Option<&str>) -> (r: String)
    ensures
        r@ == missing_downloader_text(p, match dev_dir {
            Some(d) => Some(d@),
            None => None,
        }),
{
    let names = candidate_names(p);
    let mut listed = String::from_str(names[0].as_str());
    listed.append(", ");
    listed.append(names[1].as_str());
    match dev_dir {
        Some(d) => {
            let mut r = String::from_str("No hay descargador en ");
            r.append(d);
            r.append(". Añade uno de [");
            r.append(listed.as_str());
            r.append("] ahí. Se recomienda yt-dlp (https://github.com/yt-dlp/yt-dlp#release-files ).");
            r
        },
        None => {
            let mut r = String::from_str("No hay descargador incluido. Debe existir uno de [");
            r.append(listed.as_str());
            r.append("] en Resources, carpeta dependencies/");
            r.append(deps_platform_dir_name(p));
            r.append("/.");
            r
        },
    }
}

/// Only the probed paths matter for the downloader too: testing the paths that
/// [`downloader_probe_paths`] lists is enough.
pub proof fn law_downloader_search_needs_only_probed_paths(dir: Seq<char>, p: Platform, files: Set<Seq<char>>)
    ensures
        downloader_in(dir, p, files) == downloader_in(
            dir,
            p,
            files.intersect(downloader_candidates(dir, p).to_set()),
        ),
{
    let c = downloader_candidates(dir, p);
    let known = files.intersect(c.to_set());
    assert forall|i: int| 0 <= i < c.len() implies (files.contains(#[trigger] c[i]) == known.contains(c[i])) by {
        assert(c.to_set().contains(c[i]));
    }
    lemma_first_file_agree(c, files, known);
}

/// Lemma: on Unix, a folder that does not end with `/` is joined with a name by one `/`.
proof fn lemma_join_unix(dir: Seq<char>, name: Seq<char>)
    requires
        dir.len() > 0,
        dir.last() != '/',
    ensures
        join(dir, name, Platform::Unix) == dir + "/"@ + name,
{
    reveal_strlit("/");
    assert(dir.push('/') + name =~= dir + "/"@ + name);
}

/// Lemma: candidates that are not known files are passed over.
proof fn lemma_first_file_skip(a: Seq<Seq<char>>, c: Seq<Seq<char>>, files: Set<Seq<char>>)
    requires
        forall|i: int| 0 <= i < a.len() ==> !files.contains(#[trigger] a[i]),
    ensures
        first_file(a + c, files) == first_file(c, files),
    decreases a.len(),
{
    if a.len() > 0 {
        assert((a + c)[0] == a[0]);
        assert((a + c).drop_first() =~= a.drop_first() + c);
        assert forall|i: int| 0 <= i < a.drop_first().len() implies !files.contains(#[trigger] a.drop_first()[i]) by {
            assert(a.drop_first()[i] == a[i + 1]);
        }
        lemma_first_file_skip(a.drop_first(), c, files);
    } else {
        assert(a + c =~= c);
    }
}

/// On Unix, when neither the bundled folder, nor its `bin`, nor the folder of an ffmpeg
/// found on `PATH` holds both ffmpeg and ffprobe, the ffmpeg folder is the first of
/// `/opt/homebrew/bin`, `/usr/local/bin` and `/opt/homebrew/opt/ffmpeg/bin` that holds
/// both, and there is none when none of them does.
pub proof fn law_ffmpeg_homebrew_fallback(deps_dir: Seq<char>, path_var: Seq<char>, files: Set<Seq<char>>)
    requires
        !(files.contains(join(deps_dir, "ffmpeg"@, Platform::Unix)) && files.contains(
            join(deps_dir, "ffprobe"@, Platform::Unix),
        )),
        !(files.contains(join(join(deps_dir, "bin"@, Platform::Unix), "ffmpeg"@, Platform::Unix))
            && files.contains(join(join(deps_dir, "bin"@, Platform::Unix), "ffprobe"@, Platform::Unix))),
        forall|i: int|
            0 <= i < path_entries(path_var, Platform::Unix).len() && files.contains(
                join(#[trigger] path_entries(path_var, Platform::Unix)[i], "ffmpeg"@, Platform::Unix),
            ) ==> match dir_of_entry(path_entries(path_var, Platform::Unix)[i], "ffmpeg"@, Platform::Unix) {
                Some(d) => !(files.contains(join(d, "ffmpeg"@, Platform::Unix)) && files.contains(
                    join(d, "ffprobe"@, Platform::Unix),
                )),
                None => true,
            },
    ensures
        ffmpeg_dir(deps_dir, path_var, Platform::Unix, files) == (if files.contains(
            "/opt/homebrew/bin/ffmpeg"@,
        ) && files.contains("/opt/homebrew/bin/ffprobe"@) {
            Some("/opt/homebrew/bin"@)
        } else if files.contains("/usr/local/bin/ffmpeg"@) && files.contains("/usr/local/bin/ffprobe"@) {
            Some("/usr/local/bin"@)
        } else if files.contains("/opt/homebrew/opt/ffmpeg/bin/ffmpeg"@) && files.contains(
            "/opt/homebrew/opt/ffmpeg/bin/ffprobe"@,
        ) {
            Some("/opt/homebrew/opt/ffmpeg/bin"@)
        } else {
            None
        }),
{
    let p = Platform::Unix;
    reveal_strlit("ffmpeg");
    reveal_strlit("ffprobe");
    reveal_strlit("/opt/homebrew/bin");
    reveal_strlit("/usr/local/bin");
    reveal_strlit("/opt/homebrew/opt/ffmpeg/bin");
    reveal_strlit("/opt/homebrew/bin/ffmpeg");
    reveal_strlit("/opt/homebrew/bin/ffprobe");
    reveal_strlit("/usr/local/bin/ffmpeg");
    reveal_strlit("/usr/local/bin/ffprobe");
    reveal_strlit("/opt/homebrew/opt/ffmpeg/bin/ffmpeg");
    reveal_strlit("/opt/homebrew/opt/ffmpeg/bin/ffprobe");
    assert(exe("ffmpeg"@, p) == "ffmpeg"@);
    assert(exe("ffprobe"@, p) == "ffprobe"@);
    let b = bundle_dirs(deps_dir, p);
    reveal_with_fuel(first_ff_dir, 3);
    assert(b.drop_first().drop_first().len() == 0);
    assert(first_ff_dir(b, p, files) is None);
    let entries = path_entries(path_var, p);
    lemma_first_entry_is_entry(entries, exe("ffmpeg"@, p), p, files);
    match first_entry_with(entries, exe("ffmpeg"@, p), p, files) {
        Some(e) => {
            let k = choose|k: int| 0 <= k < entries.len() && entries[k] == e;
            assert(files.contains(join(entries[k], "ffmpeg"@, p)));
        },
        None => {},
    }
    let hb = "/opt/homebrew/bin"@;
    let ul = "/usr/local/bin"@;
    let of = "/opt/homebrew/opt/ffmpeg/bin"@;
    lemma_join_unix(hb, "ffmpeg"@);
    lemma_join_unix(hb, "ffprobe"@);
    lemma_join_unix(ul, "ffmpeg"@);
    lemma_join_unix(ul, "ffprobe"@);
    lemma_join_unix(of, "ffmpeg"@);
    lemma_join_unix(of, "ffprobe"@);
    assert(hb + "/"@ + "ffmpeg"@ =~= "/opt/homebrew/bin/ffmpeg"@);
    assert(hb + "/"@ + "ffprobe"@ =~= "/opt/homebrew/bin/ffprobe"@);
    assert(ul + "/"@ + "ffmpeg"@ =~= "/usr/local/bin/ffmpeg"@);
    assert(ul + "/"@ + "ffprobe"@ =~= "/usr/local/bin/ffprobe"@);
    assert(of + "/"@ + "ffmpeg"@ =~= "/opt/homebrew/opt/ffmpeg/bin/ffmpeg"@);
    assert(of + "/"@ + "ffprobe"@ =~= "/opt/homebrew/opt/ffmpeg/bin/ffprobe"@);
    let fb = ffmpeg_fallback_dirs(p);
    reveal_with_fuel(first_ff_dir, 4);
    assert(fb[0] == hb && fb[1] == ul && fb[2] == of);
    assert(fb.drop_first()[0] == ul && fb.drop_first().drop_first()[0] == of);
    assert(fb.drop_first().drop_first().drop_first().len() == 0);
}

/// Lemma: the runtime candidates after the bundled folders and `PATH` are the fallbacks.
proof fn lemma_runtime_fallback(
    deps_dir: Seq<char>,
    path_var: Seq<char>,
    name: Seq<char>,
    fallbacks: Seq<Seq<char>>,
    p: Platform,
    files: Set<Seq<char>>,
)
    requires
        !files.contains(join(deps_dir, name, p)),
        !files.contains(join(join(deps_dir, "bin"@, p), name, p)),
        forall|i: int| 0 <= i < path_entries(path_var, p).len() ==> !files.contains(
            join(#[trigger] path_entries(path_var, p)[i], name, p),
        ),
    ensures
        first_file(runtime_candidates(deps_dir, path_var, name, fallbacks, p), files) == first_file(
            each_joined(fallbacks, name, p),
            files,
        ),
{
    let a = each_joined(bundle_dirs(deps_dir, p), name, p);
    let b = each_joined(path_entries(path_var, p), name, p);
    let c = each_joined(fallbacks, name, p);
    assert forall|i: int| 0 <= i < (a + b).len() implies !files.contains(#[trigger] (a + b)[i]) by {
        if i >= a.len() {
            assert((a + b)[i] == b[i - a.len()]);
            assert(b[i - a.len()] == join(path_entries(path_var, p)[i - a.len()], name, p));
        } else {
            assert((a + b)[i] == a[i]);
            assert(bundle_dirs(deps_dir, p)[1] == join(deps_dir, "bin"@, p));
        }
    }
    lemma_first_file_skip(a + b, c, files);
}

/// On Unix, when no Node.js is bundled or on `PATH`, the Node.js flag names
/// `/opt/homebrew/bin/node` when it is a file, else `/usr/local/bin/node` when that is,
/// and there is none otherwise.
pub proof fn law_node_homebrew_fallback(deps_dir: Seq<char>, path_var: Seq<char>, files: Set<Seq<char>>)
    requires
        !files.contains(join(deps_dir, "node"@, Platform::Unix)),
        !files.contains(join(join(deps_dir, "bin"@, Platform::Unix), "node"@, Platform::Unix)),
        forall|i: int| 0 <= i < path_entries(path_var, Platform::Unix).len() ==> !files.contains(
            join(#[trigger] path_entries(path_var, Platform::Unix)[i], "node"@, Platform::Unix),
        ),
    ensures
        node_flag(deps_dir, path_var, Platform::Unix, files) == (if files.contains("/opt/homebrew/bin/node"@) {
            Some("node:/opt/homebrew/bin/node"@)
        } else if files.contains("/usr/local/bin/node"@) {
            Some("node:/usr/local/bin/node"@)
        } else {
            None
        }),
{
    let p = Platform::Unix;
    reveal_strlit("node");
    reveal_strlit("node:");
    reveal_strlit("/opt/homebrew/bin");
    reveal_strlit("/usr/local/bin");
    reveal_strlit("/opt/homebrew/bin/node");
    reveal_strlit("/usr/local/bin/node");
    reveal_strlit("node:/opt/homebrew/bin/node");
    reveal_strlit("node:/usr/local/bin/node");
    assert(exe("node"@, p) == "node"@);
    lemma_runtime_fallback(deps_dir, path_var, "node"@, node_fallback_dirs(p), p, files);
    let hb = "/opt/homebrew/bin"@;
    let ul = "/usr/local/bin"@;
    lemma_join_unix(hb, "node"@);
    lemma_join_unix(ul, "node"@);
    assert(hb + "/"@ + "node"@ =~= "/opt/homebrew/bin/node"@);
    assert(ul + "/"@ + "node"@ =~= "/usr/local/bin/node"@);
    let c = each_joined(node_fallback_dirs(p), "node"@, p);
    assert(c =~= seq!["/opt/homebrew/bin/node"@, "/usr/local/bin/node"@]);
    reveal_with_fuel(first_file, 3);
    assert(c.drop_first() =~= seq!["/usr/local/bin/node"@]);
    assert(c.drop_first().drop_first().len() == 0);
    assert("node:"@ + "/opt/homebrew/bin/node"@ =~= "node:/opt/homebrew/bin/node"@);
    assert("node:"@ + "/usr/local/bin/node"@ =~= "node:/usr/local/bin/node"@);
}

/// On Unix, when no Deno is bundled or on `PATH`, the Deno flag names
/// `/opt/homebrew/bin/deno` when it is a file, and there is none otherwise.
pub proof fn law_deno_homebrew_fallback(deps_dir: Seq<char>, path_var: Seq<char>, files: Set<Seq<char>>)
    requires
        !files.contains(join(deps_dir, "deno"@, Platform::Unix)),
        !files.contains(join(join(deps_dir, "bin"@, Platform::Unix), "deno"@, Platform::Unix)),
        forall|i: int| 0 <= i < path_entries(path_var, Platform::Unix).len() ==> !files.contains(
            join(#[trigger] path_entries(path_var, Platform::Unix)[i], "deno"@, Platform::Unix),
        ),
    ensures
        deno_flag(deps_dir, path_var, Platform::Unix, files) == (if files.contains("/opt/homebrew/bin/deno"@) {
            Some("deno:/opt/homebrew/bin/deno"@)
        } else {
            None
        }),
{
    let p = Platform::Unix;
    reveal_strlit("deno");
    reveal_strlit("deno:");
    reveal_strlit("/opt/homebrew/bin");
    reveal_strlit("/opt/homebrew/bin/deno");
    reveal_strlit("deno:/opt/homebrew/bin/deno");
    assert(exe("deno"@, p) == "deno"@);
    lemma_runtime_fallback(deps_dir, path_var, "deno"@, deno_fallback_dirs(p), p, files);
    let hb = "/opt/homebrew/bin"@;
    lemma_join_unix(hb, "deno"@);
    assert(hb + "/"@ + "deno"@ =~= "/opt/homebrew/bin/deno"@);
    let c = each_joined(deno_fallback_dirs(p), "deno"@, p);
    assert(c =~= seq!["/opt/homebrew/bin/deno"@]);
    reveal_with_fuel(first_file, 2);
    assert(c.drop_first().len() == 0);
    assert("deno:"@ + "/opt/homebrew/bin/deno"@ =~= "deno:/opt/homebrew/bin/deno"@);
}

/// The candidate `resolved[i]` is usable: resolved, a known file, with a parent.
pub open spec fn usable_resource(resolved: Seq<Option<Seq<char>>>, i: int, p: Platform, files: Set<Seq<char>>) -> bool {
    resolved[i] matches Some(f) && files.contains(f) && parent(f, p) is Some
}

/// The resource search gives the first usable candidate: its parent and the file.
/// Candidates before it that are unresolved, not files, or without a parent are passed
/// over, so youtube-dl is used when yt-dlp is absent.
pub proof fn law_resource_pick_first_usable(
    resolved: Seq<Option<Seq<char>>>,
    p: Platform,
    files: Set<Seq<char>>,
    i: int,
    f: Seq<char>,
)
    requires
        0 <= i < resolved.len(),
        resolved[i] == Some(f),
        files.contains(f),
        parent(f, p) is Some,
        forall|j: int| 0 <= j < i ==> !usable_resource(resolved, j, p, files),
    ensures
        resource_pick(resolved, p, files) == Some((parent(f, p)->0, f)),
    decreases i,
{
    if i > 0 {
        assert(!usable_resource(resolved, 0, p, files));
        let rest = resolved.drop_first();
        assert forall|j: int| 0 <= j < i - 1 implies !usable_resource(rest, j, p, files) by {
            assert(rest[j] == resolved[j + 1]);
            assert(!usable_resource(resolved, j + 1, p, files));
        }
        assert(rest[i - 1] == resolved[i]);
        law_resource_pick_first_usable(rest, p, files, i - 1, f);
    }
}

/// With no usable candidate, the resource search gives nothing; and whatever it gives is
/// a usable candidate with its parent.
pub proof fn law_resource_pick_result(resolved: Seq<Option<Seq<char>>>, p: Platform, files: Set<Seq<char>>)
    ensures
        (forall|j: int| 0 <= j < resolved.len() ==> !usable_resource(resolved, j, p, files)) ==> resource_pick(
            resolved,
            p,
            files,
        ) is None,
        resource_pick(resolved, p, files) matches Some((d, f)) ==> files.contains(f) && parent(f, p) == Some(d)
            && exists|j: int| 0 <= j < resolved.len() && resolved[j] == Some(f),
    decreases resolved.len(),
{
    if resolved.len() > 0 {
        let rest = resolved.drop_first();
        law_resource_pick_result(rest, p, files);
        if forall|j: int| 0 <= j < resolved.len() ==> !usable_resource(resolved, j, p, files) {
            assert(!usable_resource(resolved, 0, p, files));
            assert forall|j: int| 0 <= j < rest.len() implies !usable_resource(rest, j, p, files) by {
                assert(rest[j] == resolved[j + 1]);
                assert(!usable_resource(resolved, j + 1, p, files));
            }
        }
        if let Some((d, f)) = resource_pick(resolved, p, files) {
            if usable_resource(resolved, 0, p, files) {
                assert(resolved[0] == Some(f));
            } else {
                let j = choose|j: int| 0 <= j < rest.len() && rest[j] == Some(f);
                assert(resolved[j + 1] == Some(f));
            }
        }
    }
}

/// Lemma: the first entry holding `name` is found.
proof fn lemma_first_entry_at(entries: Seq<Seq<char>>, name: Seq<char>, p: Platform, files: Set<Seq<char>>, k: int)
    requires
        0 <= k < entries.len(),
        files.contains(join(entries[k], name, p)),
        forall|j: int| 0 <= j < k ==> !files.contains(join(#[trigger] entries[j], name, p)),
    ensures
        first_entry_with(entries, name, p, files) == Some(entries[k]),
    decreases k,
{
    if k > 0 {
        let rest = entries.drop_first();
        assert(!files.contains(join(entries[0], name, p)));
        assert forall|j: int| 0 <= j < k - 1 implies !files.contains(join(#[trigger] rest[j], name, p)) by {
            assert(rest[j] == entries[j + 1]);
        }
        lemma_first_entry_at(rest, name, p, files, k - 1);
    }
}

/// After the bundled folder, its `bin` subfolder: when the bundled folder lacks ffmpeg or
/// ffprobe and `bin` holds both, `bin` is the ffmpeg folder whatever `PATH` holds.
pub proof fn law_bundled_bin_second(deps_dir: Seq<char>, path_var: Seq<char>, p: Platform, files: Set<Seq<char>>)
    requires
        !(files.contains(join(deps_dir, exe("ffmpeg"@, p), p)) && files.contains(
            join(deps_dir, exe("ffprobe"@, p), p),
        )),
        files.contains(join(join(deps_dir, "bin"@, p), exe("ffmpeg"@, p), p)),
        files.contains(join(join(deps_dir, "bin"@, p), exe("ffprobe"@, p), p)),
    ensures
        ffmpeg_dir(deps_dir, path_var, p, files) == Some(join(deps_dir, "bin"@, p)),
{
    reveal_with_fuel(first_ff_dir, 2);
    assert(bundle_dirs(deps_dir, p).drop_first()[0] == join(deps_dir, "bin"@, p));
}

/// `PATH` comes before the fallback folders: when no bundled folder holds both programs,
/// the folder of the first ffmpeg on `PATH` is the ffmpeg folder if it holds ffmpeg and
/// ffprobe.
pub proof fn law_path_ffmpeg_before_fallbacks(
    deps_dir: Seq<char>,
    path_var: Seq<char>,
    p: Platform,
    files: Set<Seq<char>>,
    k: int,
    d: Seq<char>,
)
    requires
        !(files.contains(join(deps_dir, exe("ffmpeg"@, p), p)) && files.contains(
            join(deps_dir, exe("ffprobe"@, p), p),
        )),
        !(files.contains(join(join(deps_dir, "bin"@, p), exe("ffmpeg"@, p), p)) && files.contains(
            join(join(deps_dir, "bin"@, p), exe("ffprobe"@, p), p),
        )),
        0 <= k < path_entries(path_var, p).len(),
        files.contains(join(path_entries(path_var, p)[k], exe("ffmpeg"@, p), p)),
        forall|j: int| 0 <= j < k ==> !files.contains(
            join(#[trigger] path_entries(path_var, p)[j], exe("ffmpeg"@, p), p),
        ),
        dir_of_entry(path_entries(path_var, p)[k], exe("ffmpeg"@, p), p) == Some(d),
        files.contains(join(d, exe("ffmpeg"@, p), p)),
        files.contains(join(d, exe("ffprobe"@, p), p)),
    ensures
        ffmpeg_dir(deps_dir, path_var, p, files) == Some(d),
{
    reveal_with_fuel(first_ff_dir, 3);
    let b = bundle_dirs(deps_dir, p);
    assert(b.drop_first()[0] == join(deps_dir, "bin"@, p));
    assert(b.drop_first().drop_first().len() == 0);
    lemma_first_entry_at(path_entries(path_var, p), exe("ffmpeg"@, p), p, files, k);
}

} // verus!

//! Reading the downloader's console output: colour codes, the saved file's path, the
//! progress percentage, and the report shown when a download ends.
use vstd::prelude::*;
use crate::text::{decimal, decimal_string, digits, digits_string, chars_of, contains, contains_exec, ends_with, ends_with_exec, find, find_exec, lines, occurs_at, lines_exec, lower_chars, lowercase, opt_chars, opt_str, opt_string_of, slice, starts_with, starts_with_exec, string_of, trim, trim_char, trim_char_exec, trim_chars, views, words, words_exec};

verus! {

/// The escape character that starts a terminal control sequence.
pub open spec fn esc() -> char {
    '\u{1b}'
}

/// `c` ends a control sequence (`0x40..=0x7e`).
pub open spec fn is_final(c: char) -> bool {
    0x40 <= (c as u32) <= 0x7e
}

/// The text of `s` from position `i` on, with control sequences removed: `ESC [`
/// starts a sequence that runs through the next final character (or to the end), and an
/// `ESC` not followed by `[` is dropped alone.
pub open spec fn strip_from(s: Seq<char>, i: int) -> Seq<char>
    decreases s.len() - i, 1int,
{
    if i < 0 || i >= s.len() {
        Seq::empty()
    } else if s[i] == esc() {
        if i + 1 < s.len() && s[i + 1] == '[' {
            skip_sequence(s, i + 2)
        } else {
            strip_from(s, i + 1)
        }
    } else {
        seq![s[i]] + strip_from(s, i + 1)
    }
}

/// The rest of `s` after the control sequence whose body starts at `i`.
pub open spec fn skip_sequence(s: Seq<char>, i: int) -> Seq<char>
    decreases s.len() - i, 0int,
{
    if i < 0 || i >= s.len() {
        Seq::empty()
    } else if is_final(s[i]) {
        strip_from(s, i + 1)
    } else {
        skip_sequence(s, i + 1)
    }
}

/// `s` with its terminal control sequences removed.
pub open spec fn without_escapes(s: Seq<char>) -> Seq<char> {
    strip_from(s, 0)
}

/// Removes terminal colour and control sequences (`ESC [ ... final`), and lone `ESC`
/// characters, from `text`.
pub fn strip_ansi(text: &str) -> (r: String)
    ensures
        r@ == without_escapes(text@),
{
    let v = chars_of(text);
    let mut out: Vec<char> = Vec::new();
    let mut i: usize = 0;
    while i < v.len()
        invariant
            i <= v.len(),
            without_escapes(v@) == out@ + strip_from(v@, i as int),
        decreases v.len() - i,
    {
        if v[i] == '\u{1b}' {
            if i + 1 < v.len() && v[i + 1] == '[' {
                let ghost i0 = i;
                i += 2;
                while i < v.len() && !(0x40 <= (v[i] as u32) && (v[i] as u32) <= 0x7e)
                    invariant
                        i0 < i <= v.len(),
                        without_escapes(v@) == out@ + skip_sequence(v@, i as int),
                    decreases v.len() - i,
                {
                    i += 1;
                }
                if i < v.len() {
                    i += 1;
                }
            } else {
                i += 1;
            }
        } else {
            let ghost before = out@;
            out.push(v[i]);
            i += 1;
            assert(before + (seq![v@[i - 1]] + strip_from(v@, i as int)) =~= out@ + strip_from(
                v@,
                i as int,
            ));
        }
    }
    assert(out@ + strip_from(v@, i as int) =~= out@);
    string_of(&out)
}

proof fn lemma_strip_facts(s: Seq<char>, i: int)
    ensures
        forall|k: int| 0 <= k < strip_from(s, i).len() ==> strip_from(s, i)[k] != esc(),
        forall|k: int| 0 <= k < skip_sequence(s, i).len() ==> skip_sequence(s, i)[k] != esc(),
        (forall|k: int| i <= k < s.len() ==> s[k] != esc()) && 0 <= i <= s.len() ==> strip_from(s, i) == s.skip(i),
    decreases s.len() - i,
{
    if i < 0 || i >= s.len() {
        if i == s.len() {
            assert(s.skip(i) =~= Seq::<char>::empty());
        }
    } else {
        lemma_strip_facts(s, i + 1);
        if i + 2 <= s.len() {
            lemma_strip_facts(s, i + 2);
        }
        let r = strip_from(s, i);
        let q = skip_sequence(s, i);
        if is_final(s[i]) {
            assert(q == strip_from(s, i + 1));
        } else {
            assert(q == skip_sequence(s, i + 1));
        }
        assert forall|k: int| 0 <= k < q.len() implies q[k] != esc() by {
            if is_final(s[i]) {
                assert(q[k] == strip_from(s, i + 1)[k]);
            } else {
                assert(q[k] == skip_sequence(s, i + 1)[k]);
            }
        }
        if s[i] != esc() {
            assert(r == seq![s[i]] + strip_from(s, i + 1));
            assert forall|k: int| 0 <= k < r.len() implies r[k] != esc() by {
                if k > 0 {
                    assert(r[k] == strip_from(s, i + 1)[k - 1]);
                }
            }
            if forall|k: int| i <= k < s.len() ==> s[k] != esc() {
                assert(s.skip(i) =~= seq![s[i]] + s.skip(i + 1));
            }
        } else if i + 1 < s.len() && s[i + 1] == '[' {
            assert(r == skip_sequence(s, i + 2));
            assert forall|k: int| 0 <= k < r.len() implies r[k] != esc() by {
                assert(r[k] == skip_sequence(s, i + 2)[k]);
            }
        } else {
            assert(r == strip_from(s, i + 1));
            assert forall|k: int| 0 <= k < r.len() implies r[k] != esc() by {
                assert(r[k] == strip_from(s, i + 1)[k]);
            }
        }
    }
}

/// Removing control sequences leaves no escape character.
pub proof fn law_strip_ansi_leaves_no_escape(s: Seq<char>)
    ensures
        !without_escapes(s).contains(esc()),
{
    lemma_strip_facts(s, 0);
}

/// Text without escape characters is left as it is; hence stripping twice is stripping once.
pub proof fn law_strip_ansi_idempotent(s: Seq<char>)
    ensures
        !s.contains(esc()) ==> without_escapes(s) == s,
        without_escapes(without_escapes(s)) == without_escapes(s),
{
    lemma_strip_facts(s, 0);
    assert(s.skip(0) =~= s);
    let t = without_escapes(s);
    lemma_strip_facts(t, 0);
    assert(t.skip(0) =~= t);
}

/// A path as the downloader prints it: surrounding whitespace, then double quotes, then
/// single quotes removed.
pub open spec fn unquoted(s: Seq<char>) -> Seq<char> {
    trim_char(trim_char(trim(s), '"'), '\'')
}

/// Removes the whitespace and quotes the downloader may print around a path.
pub fn unquote_ytdlp_path(s: &str) -> (r: String)
    ensures
        r@ == unquoted(s@),
{
    string_of(&unquote_chars(&chars_of(s)))
}

fn unquote_chars(v: &Vec<char>) -> (r: Vec<char>)
    ensures
        r@ == unquoted(v@),
{
    let t = trim_chars(v);
    let t = trim_char_exec(&t, '"');
    trim_char_exec(&t, '\'')
}

/// The path a (colour-stripped, trimmed) downloader line names, if it names one:
/// a download destination, an already or just downloaded file, an extracted audio file
/// (including one left unconverted), or the file formats were merged into.
pub open spec fn line_path(t: Seq<char>) -> Option<Seq<char>> {
    let dest = "Destination: "@;
    if starts_with(t, "[download] Destination: "@) {
        Some(unquoted(t.skip("[download] Destination: "@.len() as int)))
    } else if contains(t, "[download]"@) {
        match find(t, dest) {
            Some(idx) => Some(unquoted(t.skip(idx + dest.len()))),
            None => if starts_with(t, "[download] "@) {
                let after = t.skip("[download] "@.len() as int);
                if ends_with(after, " has already been downloaded"@) {
                    Some(unquoted(after.take(after.len() - " has already been downloaded"@.len())))
                } else if ends_with(after, " has been downloaded"@) {
                    Some(unquoted(after.take(after.len() - " has been downloaded"@.len())))
                } else {
                    None
                }
            } else {
                None
            },
        }
    } else if starts_with(t, "[ExtractAudio] Destination: "@) {
        Some(unquoted(t.skip("[ExtractAudio] Destination: "@.len() as int)))
    } else if contains(t, "[ExtractAudio]"@) {
        match find(t, dest) {
            Some(idx) => Some(unquoted(t.skip(idx + dest.len()))),
            None => match find(t, "Not converting audio "@) {
                Some(idx) => {
                    let after = t.skip(idx + "Not converting audio "@.len());
                    match find(after, seq![';']) {
                        Some(semi) => Some(unquoted(after.take(semi))),
                        None => None,
                    }
                },
                None => None,
            },
        }
    } else if starts_with(t, "[Merger] Merging formats into "@) {
        Some(unquoted(t.skip("[Merger] Merging formats into "@.len() as int)))
    } else if contains(t, "[Merger]"@) && contains(t, "Merging formats into"@) {
        match find(t, "Merging formats into "@) {
            Some(idx) => Some(unquoted(t.skip(idx + "Merging formats into "@.len()))),
            None => None,
        }
    } else {
        None
    }
}

/// The last path named by `ls`, or `acc` if none of them names one.
pub open spec fn last_path(ls: Seq<Seq<char>>, acc: Option<Seq<char>>) -> Option<Seq<char>>
    decreases ls.len(),
{
    if ls.len() == 0 {
        acc
    } else {
        let next = match line_path(trim(without_escapes(ls[0]))) {
            Some(p) => Some(p),
            None => acc,
        };
        last_path(ls.drop_first(), next)
    }
}

/// The path of the media file the downloader reported last, reading its error stream
/// and then its output stream, line by line.
pub open spec fn reported_path(stderr: Seq<char>, stdout: Seq<char>) -> Option<Seq<char>> {
    last_path(lines(stdout), last_path(lines(stderr), None))
}

/// `v` from position `from` on.
fn tail(v: &Vec<char>, from: usize) -> (r: Vec<char>)
    requires
        from <= v.len(),
    ensures
        r@ == v@.skip(from as int),
{
    let r = slice(v, from, v.len());
    assert(r@ =~= v@.skip(from as int));
    r
}

/// `v` without its last `n` characters.
fn head(v: &Vec<char>, n: usize) -> (r: Vec<char>)
    requires
        n <= v.len(),
    ensures
        r@ == v@.take(v.len() - n),
{
    let r = slice(v, 0, v.len() - n);
    assert(r@ =~= v@.take(v.len() - n));
    r
}

/// The path one line names (see [`line_path`]).
fn line_path_exec(t: &Vec<char>) -> (r: Option<Vec<char>>)
    ensures
        opt_chars(r) == line_path(t@),
{
    let dest = chars_of("Destination: ");
    let dl_dest = chars_of("[download] Destination: ");
    let dl = chars_of("[download]");
    let dl_sp = chars_of("[download] ");
    let already = chars_of(" has already been downloaded");
    let been = chars_of(" has been downloaded");
    let xa_dest = chars_of("[ExtractAudio] Destination: ");
    let xa = chars_of("[ExtractAudio]");
    let not_conv = chars_of("Not converting audio ");
    let mg_into = chars_of("[Merger] Merging formats into ");
    let mg = chars_of("[Merger]");
    let merging = chars_of("Merging formats into");
    let merging_sp = chars_of("Merging formats into ");
    let semi = vec![';'];
    assert(semi@ =~= seq![';']);
    if starts_with_exec(t, &dl_dest) {
        Some(unquote_chars(&tail(t, dl_dest.len())))
    } else if contains_exec(t, &dl) {
        match find_exec(t, &dest) {
            Some(idx) => Some(unquote_chars(&tail(t, idx + dest.len()))),
            None => {
                if starts_with_exec(t, &dl_sp) {
                    let after = tail(t, dl_sp.len());
                    if ends_with_exec(&after, &already) {
                        Some(unquote_chars(&head(&after, already.len())))
                    } else if ends_with_exec(&after, &been) {
                        Some(unquote_chars(&head(&after, been.len())))
                    } else {
                        None
                    }
                } else {
                    None
                }
            },
        }
    } else if starts_with_exec(t, &xa_dest) {
        Some(unquote_chars(&tail(t, xa_dest.len())))
    } else if contains_exec(t, &xa) {
        match find_exec(t, &dest) {
            Some(idx) => Some(unquote_chars(&tail(t, idx + dest.len()))),
            None => match find_exec(t, &not_conv) {
                Some(idx) => {
                    let after = tail(t, idx + not_conv.len());
                    match find_exec(&after, &semi) {
                        Some(k) => Some(unquote_chars(&slice(&after, 0, k))),
                        None => None,
                    }
                },
                None => None,
            },
        }
    } else if starts_with_exec(t, &mg_into) {
        Some(unquote_chars(&tail(t, mg_into.len())))
    } else if contains_exec(t, &mg) && contains_exec(t, &merging) {
        match find_exec(t, &merging_sp) {
            Some(idx) => Some(unquote_chars(&tail(t, idx + merging_sp.len()))),
            None => None,
        }
    } else {
        None
    }
}

/// Folds [`line_path`] over `ls`, starting from `acc`.
fn scan_lines(ls: &Vec<Vec<char>>, acc: Option<Vec<char>>) -> (r: Option<Vec<char>>)
    ensures
        opt_chars(r) == last_path(views(ls@), opt_chars(acc)),
{
    let mut last = acc;
    let mut i: usize = 0;
    proof {
        assert(views(ls@).skip(0) =~= views(ls@));
    }
    while i < ls.len()
        invariant
            i <= ls.len(),
            last_path(views(ls@), opt_chars(acc)) == last_path(views(ls@).skip(i as int), opt_chars(last)),
        decreases ls.len() - i,
    {
        let ghost rest = views(ls@).skip(i as int);
        assert(rest[0] == ls@[i as int]@);
        assert(rest.drop_first() =~= views(ls@).skip(i + 1));
        let cleaned = chars_of(strip_ansi_chars(&ls[i]).as_str());
        let t = trim_chars(&cleaned);
        match line_path_exec(&t) {
            Some(p) => {
                last = Some(p);
            },
            None => {},
        }
        i += 1;
    }
    last
}

fn strip_ansi_chars(v: &Vec<char>) -> (r: String)
    ensures
        r@ == without_escapes(v@),
{
    let s = string_of(v);
    strip_ansi(s.as_str())
}

/// The path of the media file the downloader reported last (its error stream is read
/// before its output stream). Whether a file exists there is for the caller to check.
pub fn infer_output_path_from_downloader_log(stderr: &str, stdout: &str) -> (r: Option<String>)
    ensures
        opt_str(r) == reported_path(stderr@, stdout@),
{
    let err_lines = lines_exec(&chars_of(stderr));
    let out_lines = lines_exec(&chars_of(stdout));
    let from_err = scan_lines(&err_lines, None);
    let found = scan_lines(&out_lines, from_err);
    opt_string_of(&found)
}

/// `c` is an ASCII digit.
pub open spec fn is_digit(c: char) -> bool {
    '0' <= c && c <= '9'
}

/// Where the run of digits and dots that ends at `idx` starts.
pub open spec fn number_start(s: Seq<char>, idx: int) -> int
    decreases idx,
{
    if idx > 0 && idx <= s.len() && (is_digit(s[idx - 1]) || s[idx - 1] == '.') {
        number_start(s, idx - 1)
    } else {
        idx
    }
}

/// The texts to read as a percentage, in order: each whitespace-separated word that ends
/// with `%` (without that `%`), then the digits and dots right before the first `%`.
pub open spec fn percent_texts(line: Seq<char>) -> Seq<Seq<char>> {
    let tokens = words(line).filter(|w: Seq<char>| w.len() > 0 && w.last() == '%').map_values(
        |w: Seq<char>| w.drop_last(),
    );
    let fallback = match find(line, seq!['%']) {
        Some(idx) => if number_start(line, idx) < idx {
            seq![line.subrange(number_start(line, idx), idx)]
        } else {
            seq![]
        },
        None => seq![],
    };
    tokens + fallback
}

/// The candidate numbers in a progress line such as `[download]  45.2% of ...`; the first
/// one that reads as a number, clamped to `0..=100`, is the progress.
pub fn percent_candidates(line: &str) -> (r: Vec<String>)
    ensures
        crate::text::str_views(r@) == percent_texts(line@),
{
    let v = chars_of(line);
    let ws = words_exec(&v);
    let ghost keep = |w: Seq<char>| w.len() > 0 && w.last() == '%';
    let ghost cut = |w: Seq<char>| w.drop_last();
    let mut r: Vec<String> = Vec::new();
    let mut k: usize = 0;
    while k < ws.len()
        invariant
            k <= ws.len(),
            views(ws@) == words(v@),
            keep == (|w: Seq<char>| w.len() > 0 && w.last() == '%'),
            cut == (|w: Seq<char>| w.drop_last()),
            crate::text::str_views(r@) == views(ws@).take(k as int).filter(keep).map_values(cut),
        decreases ws.len() - k,
    {
        reveal_with_fuel(Seq::<_>::filter, 1);
        let w = &ws[k];
        let ghost before = r@;
        proof {
            assert(w@ == views(ws@)[k as int]);
            assert(views(ws@).take(k + 1).drop_last() =~= views(ws@).take(k as int));
        }
        if w.len() > 0 && w[w.len() - 1] == '%' {
            let s = string_of(&slice(w, 0, w.len() - 1));
            r.push(s);
            proof {
                assert(w@.subrange(0, w@.len() - 1) =~= w@.drop_last());
                let f = views(ws@).take(k as int).filter(keep);
                assert(views(ws@).take(k + 1).filter(keep) =~= f.push(w@));
                assert(f.push(w@).map_values(cut) =~= f.map_values(cut).push(w@.drop_last()));
                assert(crate::text::str_views(r@) =~= crate::text::str_views(before).push(s@));
            }
        }
        k += 1;
    }
    assert(views(ws@).take(ws.len() as int) =~= views(ws@));
    let pct = vec!['%'];
    assert(pct@ =~= seq!['%']);
    if let Some(idx) = find_exec(&v, &pct) {
        let mut start = idx;
        while start > 0 && (('0' <= v[start - 1] && v[start - 1] <= '9') || v[start - 1] == '.')
            invariant
                start <= idx < v.len(),
                number_start(v@, idx as int) == number_start(v@, start as int),
            decreases start,
        {
            start -= 1;
        }
        if start < idx {
            let ghost before = r@;
            let s = string_of(&slice(&v, start, idx));
            r.push(s);
            assert(crate::text::str_views(r@) =~= crate::text::str_views(before).push(s@));
        }
    }
    r
}

/// The exit code shown to the user: the process's code, or -1 when it has none.
pub open spec fn shown_code(exit_code: Option<i32>) -> int {
    match exit_code {
        Some(c) => c as int,
        None => -1,
    }
}

/// The downloader's output as shown to the user: its standard output and its log, each
/// under a heading when it holds more than whitespace, or a note that there was none.
pub open spec fn output_body(stdout: Seq<char>, stderr: Seq<char>) -> Seq<char> {
    let a = if trim(stdout).len() > 0 {
        "— salida estándar —\n"@ + stdout
    } else {
        Seq::empty()
    };
    let b = if trim(stderr).len() > 0 {
        (if a.len() > 0 {
            seq!['\n']
        } else {
            Seq::empty()
        }) + "— registro del descargador —\n"@ + stderr
    } else {
        Seq::empty()
    };
    if (a + b).len() == 0 {
        "(sin salida)"@
    } else {
        a + b
    }
}

/// The downloader stopped itself after the single allowed download (`--max-downloads`):
/// exit code 101, or its log says so.
pub open spec fn stopped_by_limit(code: int, stderr: Seq<char>) -> bool {
    let l = lowercase(stderr);
    code == 101 || (contains(l, "max-downloads"@) && (contains(l, "maximum number of downloads"@)
        || contains(l, "stopping due to"@)))
}

/// A download counts as done when the process succeeded or stopped at the download limit.
pub open spec fn download_done(exit_code: Option<i32>, stderr: Seq<char>) -> bool {
    exit_code == Some(0i32) || stopped_by_limit(shown_code(exit_code), stderr)
}

/// The report's text: `Listo` or `La descarga falló`, the exit code, then the output.
pub open spec fn report_text(exit_code: Option<i32>, stdout: Seq<char>, stderr: Seq<char>) -> Seq<char> {
    let code = decimal(shown_code(exit_code));
    let body = output_body(stdout, stderr);
    if download_done(exit_code, stderr) {
        "Listo (código de salida "@ + code + ").\n"@ + body
    } else {
        "La descarga falló (código de salida "@ + code + ").\n"@ + body
    }
}

/// How a download ended, as shown to the user.
pub struct DownloadReport {
    /// The download counts as done.
    pub succeeded: bool,
    /// The text for the user.
    pub message: String,
    /// When done, the path the downloader reported last (not yet checked to exist).
    pub output_path: Option<String>,
}

/// Whether the output holds more than whitespace.
fn has_content(v: &Vec<char>) -> (b: bool)
    ensures
        b == (trim(v@).len() > 0),
{
    trim_chars(v).len() > 0
}

/// `a` followed by `b`.
fn cat(a: &mut Vec<char>, b: &Vec<char>)
    ensures
        final(a)@ == old(a)@ + b@,
{
    let mut i: usize = 0;
    let ghost a0 = a@;
    while i < b.len()
        invariant
            i <= b.len(),
            a@ == a0 + b@.take(i as int),
        decreases b.len() - i,
    {
        a.push(b[i]);
        i += 1;
        assert(a@ =~= a0 + b@.take(i as int));
    }
    assert(b@.take(b.len() as int) =~= b@);
}

/// Builds the report for a finished downloader run from its exit code (`None` when it
/// was ended by a signal) and its two output streams.
pub fn summarize_download(exit_code: Option<i32>, stdout: &str, stderr: &str) -> (r: DownloadReport)
    ensures
        r.succeeded == download_done(exit_code, stderr@),
        r.message@ == report_text(exit_code, stdout@, stderr@),
        opt_str(r.output_path) == (if r.succeeded {
            reported_path(stderr@, stdout@)
        } else {
            None
        }),
{
    let out = chars_of(stdout);
    let err = chars_of(stderr);
    let code: i32 = match exit_code {
        Some(c) => c,
        None => -1,
    };
    let mut body: Vec<char> = Vec::new();
    if has_content(&out) {
        cat(&mut body, &chars_of("— salida estándar —\n"));
        cat(&mut body, &out);
    }
    let ghost a = body@;
    if has_content(&err) {
        if body.len() > 0 {
            body.push('\n');
        }
        cat(&mut body, &chars_of("— registro del descargador —\n"));
        cat(&mut body, &err);
    }
    proof {
        assert(a =~= (if trim(stdout@).len() > 0 {
            "— salida estándar —\n"@ + stdout@
        } else {
            Seq::empty()
        }));
        if trim(stderr@).len() > 0 {
            if a.len() > 0 {
                assert(body@ =~= a + ((seq!['\n'] + "— registro del descargador —\n"@) + stderr@));
            } else {
                assert(body@ =~= a + ((Seq::<char>::empty() + "— registro del descargador —\n"@) + stderr@));
            }
        } else {
            assert(body@ =~= a + Seq::<char>::empty());
        }
    }
    if body.len() == 0 {
        body = chars_of("(sin salida)");
    }
    let l = lower_chars(&err);
    let stopped = code == 101 || (contains_exec(&l, &chars_of("max-downloads")) && (contains_exec(
        &l,
        &chars_of("maximum number of downloads"),
    ) || contains_exec(&l, &chars_of("stopping due to"))));
    let done = match exit_code {
        Some(c) => c == 0 || stopped,
        None => stopped,
    };
    let mut message = if done {
        String::from_str("Listo (código de salida ")
    } else {
        String::from_str("La descarga falló (código de salida ")
    };
    message.append(decimal_string(code).as_str());
    message.append(").\n");
    message.append(string_of(&body).as_str());
    let output_path = if done {
        infer_output_path_from_downloader_log(stderr, stdout)
    } else {
        None
    };
    DownloadReport { succeeded: done, message, output_path }
}

/// `message`, followed by where it was also saved when it was.
pub open spec fn with_note(message: Seq<char>, saved_at: Option<Seq<char>>) -> Seq<char> {
    match saved_at {
        Some(p) => message + "\n\nTambién guardado en:\n"@ + p,
        None => message,
    }
}

/// Adds to `message` the path of the log file it was also written to, if any.
pub fn with_saved_note(message: &str, saved_at: Option<&str>) -> (r: String)
    ensures
        r@ == with_note(message@, match saved_at {
            Some(p) => Some(p@),
            None => None,
        }),
{
    let mut r = String::from_str(message);
    if let Some(p) = saved_at {
        r.append("\n\nTambién guardado en:\n");
        r.append(p);
    }
    r
}

/// One entry of the failure log: a separator line with the time stamp, then the message.
pub open spec fn log_entry(stamp: u64, message: Seq<char>) -> Seq<char> {
    "\n--- "@ + digits(stamp as nat) + " ---\n"@ + message + "\n"@
}

/// Formats one entry of the failure log.
pub fn failure_log_entry(stamp: u64, message: &str) -> (r: String)
    ensures
        r@ == log_entry(stamp, message@),
{
    let mut r = String::from_str("\n--- ");
    r.append(digits_string(stamp).as_str());
    r.append(" ---\n");
    r.append(message);
    r.append("\n");
    r
}

/// Exit code 101 (stopped by `--max-downloads` after the single item) counts as done, as
/// does code 0; a process ended by a signal, or any other code, counts as done only when
/// its log says the download limit stopped it.
pub proof fn law_download_limit_counts_as_done(stderr: Seq<char>)
    ensures
        download_done(Some(101i32), stderr),
        download_done(Some(0i32), stderr),
        download_done(None, stderr) == stopped_by_limit(-1, stderr),
{
}

/// The path of the latest line that names one wins, whatever came before.
pub proof fn law_latest_reported_path_wins(ls: Seq<Seq<char>>, line: Seq<char>, acc: Option<Seq<char>>)
    ensures
        line_path(trim(without_escapes(line))) is Some ==> last_path(ls.push(line), acc) == line_path(
            trim(without_escapes(line)),
        ),
        line_path(trim(without_escapes(line))) is None ==> last_path(ls.push(line), acc) == last_path(ls, acc),
    decreases ls.len(),
{
    if ls.len() == 0 {
        let n = match line_path(trim(without_escapes(line))) {
            Some(p) => Some(p),
            None => acc,
        };
        assert(ls.push(line).drop_first() =~= Seq::<Seq<char>>::empty());
        assert(ls.push(line)[0] == line);
        assert(last_path(Seq::<Seq<char>>::empty(), n) == n);
        assert(last_path(ls, acc) == acc);
    } else {
        let next = match line_path(trim(without_escapes(ls[0]))) {
            Some(p) => Some(p),
            None => acc,
        };
        assert(ls.push(line).drop_first() =~= ls.drop_first().push(line));
        assert(ls.push(line)[0] == ls[0]);
        law_latest_reported_path_wins(ls.drop_first(), line, next);
    }
}

/// The line that starts a report: done or failed, with the exit code.
pub open spec fn report_status(exit_code: Option<i32>, stderr: Seq<char>) -> Seq<char> {
    let code = decimal(shown_code(exit_code));
    if download_done(exit_code, stderr) {
        "Listo (código de salida "@ + code + ").\n"@
    } else {
        "La descarga falló (código de salida "@ + code + ").\n"@
    }
}

proof fn lemma_report_split(exit_code: Option<i32>, stdout: Seq<char>, stderr: Seq<char>)
    ensures
        report_text(exit_code, stdout, stderr) == report_status(exit_code, stderr) + output_body(
            stdout,
            stderr,
        ),
{
}

/// Whenever the downloader wrote more than whitespace to standard output, the report
/// shows that output in full under the heading `— salida estándar —`, whatever its log
/// holds.
pub proof fn law_report_shows_standard_output(exit_code: Option<i32>, stdout: Seq<char>, stderr: Seq<char>)
    requires
        trim(stdout).len() > 0,
    ensures
        exists|i: int| occurs_at(
            report_text(exit_code, stdout, stderr),
            "— salida estándar —\n"@ + stdout,
            i,
        ),
{
    lemma_report_split(exit_code, stdout, stderr);
    let st = report_status(exit_code, stderr);
    let t = "— salida estándar —\n"@ + stdout;
    let m = report_text(exit_code, stdout, stderr);
    let b = output_body(stdout, stderr);
    assert(b.len() >= t.len() && b.subrange(0, t.len() as int) =~= t);
    assert(m.subrange(st.len() as int, (st.len() + t.len()) as int) =~= t);
    assert(occurs_at(m, t, st.len() as int));
}

/// Whenever the downloader's log holds more than whitespace, the report shows it in full
/// under the heading `— registro del descargador —`, whatever standard output holds.
pub proof fn law_report_shows_log(exit_code: Option<i32>, stdout: Seq<char>, stderr: Seq<char>)
    requires
        trim(stderr).len() > 0,
    ensures
        exists|i: int| occurs_at(
            report_text(exit_code, stdout, stderr),
            "— registro del descargador —\n"@ + stderr,
            i,
        ),
{
    lemma_report_split(exit_code, stdout, stderr);
    let st = report_status(exit_code, stderr);
    let t = "— registro del descargador —\n"@ + stderr;
    let m = report_text(exit_code, stdout, stderr);
    let b = output_body(stdout, stderr);
    let k = b.len() - t.len();
    assert(k >= 0 && b.subrange(k, b.len() as int) =~= t);
    assert(m.subrange(st.len() + k, st.len() + k + t.len()) =~= t);
    assert(occurs_at(m, t, st.len() + k));
}

/// When both streams are blank, the report says `(sin salida)` after its first line, and
/// nothing else.
pub proof fn law_report_notes_no_output(exit_code: Option<i32>, stdout: Seq<char>, stderr: Seq<char>)
    requires
        trim(stdout).len() == 0,
        trim(stderr).len() == 0,
    ensures
        report_text(exit_code, stdout, stderr) == report_status(exit_code, stderr) + "(sin salida)"@,
{
    lemma_report_split(exit_code, stdout, stderr);
    assert(output_body(stdout, stderr) =~= "(sin salida)"@);
}

/// A report starts with `Listo` exactly when the download counts as done, that is when
/// the exit code is 0 or the downloader stopped at the download limit; otherwise it starts
/// with `La descarga falló`. The exit code follows, `-1` when there was none.
pub proof fn law_report_status(exit_code: Option<i32>, stdout: Seq<char>, stderr: Seq<char>)
    ensures
        exit_code == Some(0i32) ==> starts_with(
            report_text(exit_code, stdout, stderr),
            "Listo (código de salida 0).\n"@,
        ),
        !download_done(exit_code, stderr) ==> starts_with(
            report_text(exit_code, stdout, stderr),
            "La descarga falló (código de salida "@ + decimal(shown_code(exit_code)) + ").\n"@,
        ),
        download_done(exit_code, stderr) ==> starts_with(
            report_text(exit_code, stdout, stderr),
            "Listo (código de salida "@ + decimal(shown_code(exit_code)) + ").\n"@,
        ),
        exit_code is None ==> shown_code(exit_code) == -1,
{
    lemma_report_split(exit_code, stdout, stderr);
    let st = report_status(exit_code, stderr);
    let m = report_text(exit_code, stdout, stderr);
    assert(m.take(st.len() as int) =~= st);
    if exit_code == Some(0i32) {
        reveal_with_fuel(digits, 2);
        assert(decimal(0) =~= "0"@) by {
            reveal_strlit("0");
        }
        reveal_strlit("Listo (código de salida ");
        reveal_strlit(").\n");
        reveal_strlit("Listo (código de salida 0).\n");
        assert(download_done(exit_code, stderr));
        assert(st =~= "Listo (código de salida 0).\n"@);
    }
}

/// When both streams hold more than whitespace, the report shows standard output first
/// and the log after it, each under its heading, separated by a line break.
pub proof fn law_report_standard_output_before_log(exit_code: Option<i32>, stdout: Seq<char>, stderr: Seq<char>)
    requires
        trim(stdout).len() > 0,
        trim(stderr).len() > 0,
    ensures
        report_text(exit_code, stdout, stderr) == report_status(exit_code, stderr) + "— salida estándar —\n"@
            + stdout + "\n— registro del descargador —\n"@ + stderr,
{
    lemma_report_split(exit_code, stdout, stderr);
    reveal_strlit("\n— registro del descargador —\n");
    reveal_strlit("— registro del descargador —\n");
    assert(seq!['\n'] + "— registro del descargador —\n"@ =~= "\n— registro del descargador —\n"@);
    assert(output_body(stdout, stderr) =~= "— salida estándar —\n"@ + stdout + "\n— registro del descargador —\n"@
        + stderr);
}

} // verus!

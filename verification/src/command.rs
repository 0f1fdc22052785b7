//! The downloader's command line, and how a legacy Python script is recognised.
use vstd::prelude::*;
use vstd::string::StringExecFns;
use crate::mode::DownloadMode;
use crate::platform::{join, join_path, Platform};
use crate::text::{opt_str, str_views};

verus! {

/// `--js-runtimes` and its value, for each runtime found (Deno before Node.js, the order
/// in which yt-dlp prefers them).
pub open spec fn runtime_args(deno: Option<Seq<char>>, node: Option<Seq<char>>) -> Seq<Seq<char>> {
    (match deno {
        Some(f) => seq!["--js-runtimes"@, f],
        None => seq![],
    }) + (match node {
        Some(f) => seq!["--js-runtimes"@, f],
        None => seq![],
    })
}

/// The file name template for downloads: title and id, with the format's extension.
pub open spec fn output_template() -> Seq<char> {
    "%(title)s [%(id)s].%(ext)s"@
}

/// The arguments given to yt-dlp / youtube-dl: no certificate check, a single video
/// even from a playlist link, stop after one download, the output template inside
/// `output_dir`, the ffmpeg folder and JavaScript runtimes when found, MP3 extraction
/// for audio, and the link last.
pub open spec fn downloader_arg_list(
    mode: DownloadMode,
    url: Seq<char>,
    output_dir: Seq<char>,
    ffmpeg_dir: Option<Seq<char>>,
    deno: Option<Seq<char>>,
    node: Option<Seq<char>>,
    p: Platform,
) -> Seq<Seq<char>> {
    seq![
        "--no-check-certificate"@,
        "--no-playlist"@,
        "--max-downloads"@,
        "1"@,
        "-o"@,
        join(output_dir, output_template(), p),
    ] + (match ffmpeg_dir {
        Some(d) => seq!["--ffmpeg-location"@, d],
        None => seq![],
    }) + runtime_args(deno, node) + (if mode == DownloadMode::Audio {
        seq!["-x"@, "--audio-format"@, "mp3"@]
    } else {
        seq![]
    }) + seq![url]
}

fn push_str(v: &mut Vec<String>, s: &str)
    ensures
        str_views(final(v)@) == str_views(old(v)@).push(s@),
{
    let ghost before = v@;
    v.push(String::from_str(s));
    assert(str_views(v@) =~= str_views(before).push(s@));
}

fn push_opt_flag(v: &mut Vec<String>, flag: &str, value: Option<&str>)
    ensures
        str_views(final(v)@) == str_views(old(v)@) + match value {
            Some(x) => seq![flag@, x@],
            None => seq![],
        },
{
    match value {
        Some(x) => {
            push_str(v, flag);
            push_str(v, x);
        },
        None => {
            assert(str_views(v@) =~= str_views(v@) + Seq::<Seq<char>>::empty());
        },
    }
}

/// The `--js-runtimes` arguments for the runtimes found.
pub fn append_js_runtime_args(args: &mut Vec<String>, deno: Option<&str>, node: Option<&str>)
    ensures
        str_views(final(args)@) == str_views(old(args)@) + runtime_args(
            match deno {
                Some(x) => Some(x@),
                None => None,
            },
            match node {
                Some(x) => Some(x@),
                None => None,
            },
        ),
{
    let ghost a0 = str_views(args@);
    push_opt_flag(args, "--js-runtimes", deno);
    let ghost a1 = str_views(args@);
    push_opt_flag(args, "--js-runtimes", node);
    proof {
        let d = match deno {
            Some(x) => Some(x@),
            None => None::<Seq<char>>,
        };
        let n = match node {
            Some(x) => Some(x@),
            None => None::<Seq<char>>,
        };
        assert(str_views(args@) =~= a0 + runtime_args(d, n));
    }
}

/// The arguments of a download run (see [`downloader_arg_list`]).
pub fn apply_mode_and_url(
    mode: DownloadMode,
    url: &str,
    output_dir: &str,
    ffmpeg_dir: Option<&str>,
    deno: Option<&str>,
    node: Option<&str>,
    p: Platform,
) -> (r: Vec<String>)
    ensures
        str_views(r@) == downloader_arg_list(
            mode,
            url@,
            output_dir@,
            match ffmpeg_dir {
                Some(x) => Some(x@),
                None => None,
            },
            match deno {
                Some(x) => Some(x@),
                None => None,
            },
            match node {
                Some(x) => Some(x@),
                None => None,
            },
            p,
        ),
{
    let mut args: Vec<String> = Vec::new();
    push_str(&mut args, "--no-check-certificate");
    push_str(&mut args, "--no-playlist");
    push_str(&mut args, "--max-downloads");
    push_str(&mut args, "1");
    push_str(&mut args, "-o");
    proof {
        reveal_strlit("%(title)s [%(id)s].%(ext)s");
    }
    let template = join_path(output_dir, "%(title)s [%(id)s].%(ext)s", p);
    let ghost before = args@;
    args.push(template);
    proof {
        assert(str_views(args@) =~= str_views(before).push(join(output_dir@, output_template(), p)));
    }
    push_opt_flag(&mut args, "--ffmpeg-location", ffmpeg_dir);
    append_js_runtime_args(&mut args, deno, node);
    let ghost mid = str_views(args@);
    if mode == DownloadMode::Audio {
        push_str(&mut args, "-x");
        push_str(&mut args, "--audio-format");
        push_str(&mut args, "mp3");
        assert(str_views(args@) =~= mid + seq!["-x"@, "--audio-format"@, "mp3"@]);
    } else {
        assert(str_views(args@) =~= mid + Seq::<Seq<char>>::empty());
    }
    push_str(&mut args, url);
    proof {
        let f = match ffmpeg_dir {
            Some(x) => Some(x@),
            None => None::<Seq<char>>,
        };
        let d = match deno {
            Some(x) => Some(x@),
            None => None::<Seq<char>>,
        };
        let n = match node {
            Some(x) => Some(x@),
            None => None::<Seq<char>>,
        };
        assert(str_views(args@) =~= downloader_arg_list(mode, url@, output_dir@, f, d, n, p));
    }
    args
}

/// ASCII lower-casing of a byte.
pub open spec fn lower_byte(b: u8) -> u8 {
    if 65 <= b && b <= 90 {
        (b + 32) as u8
    } else {
        b
    }
}

/// `python`, as bytes.
pub open spec fn python_bytes() -> Seq<u8> {
    seq![112u8, 121u8, 116u8, 104u8, 111u8, 110u8]
}

/// `python` occurs at `i` in `bs`, ignoring ASCII case.
pub open spec fn python_at(bs: Seq<u8>, i: int) -> bool {
    0 <= i && i + 6 <= bs.len() && forall|k: int| 0 <= k < 6 ==> lower_byte(#[trigger] bs[i + k]) == python_bytes()[k]
}

/// The first bytes of a file start with `#!` and mention `python` (in any ASCII case):
/// the legacy youtube-dl script, which must be run by a Python interpreter.
///
/// Reading the bytes as lossy UTF-8 and lower-casing them would find `python` exactly
/// when the bytes hold it: ASCII bytes decode to themselves and nothing else decodes to
/// ASCII.
pub open spec fn python_script(head: Seq<u8>) -> bool {
    &&& head.len() >= 2
    &&& head[0] == 35u8
    &&& head[1] == 33u8
    &&& exists|i: int| #![trigger python_at(head, i)] python_at(head, i)
}

fn lower_byte_exec(b: u8) -> (r: u8)
    ensures
        r == lower_byte(b),
{
    if 65 <= b && b <= 90 {
        b + 32
    } else {
        b
    }
}

/// Whether the first bytes of the downloader file show a Python script.
pub fn looks_like_python_script(head: &[u8]) -> (r: bool)
    ensures
        r == python_script(head@),
{
    if head.len() < 2 || head[0] != 35u8 || head[1] != 33u8 {
        return false;
    }
    let py: [u8; 6] = [112u8, 121u8, 116u8, 104u8, 111u8, 110u8];
    assert(py@ =~= python_bytes());
    let mut i: usize = 0;
    while head.len() >= 6 && i <= head.len() - 6
        invariant
            py@ == python_bytes(),
            head@.len() >= 2 && head@[0] == 35u8 && head@[1] == 33u8,
            forall|j: int| 0 <= j < i ==> !python_at(head@, j),
        decreases head.len() - i,
    {
        let mut k: usize = 0;
        let mut ok = true;
        while k < 6
            invariant
                i + 6 <= head.len(),
                k <= 6,
                py@ == python_bytes(),
                ok == (forall|m: int| 0 <= m < k ==> lower_byte(head@[i + m]) == python_bytes()[m]),
            decreases 6 - k,
        {
            if lower_byte_exec(head[i + k]) != py[k] {
                ok = false;
            }
            k += 1;
        }
        if ok {
            assert(python_at(head@, i as int));
            return true;
        }
        i += 1;
    }
    assert forall|j: int| #![trigger python_at(head@, j)] !python_at(head@, j) by {
        if j >= i as int {
            assert(!(j + 6 <= head@.len()));
        }
    }
    false
}

/// The interpreters tried, in order, for a downloader that is a Python script.
pub open spec fn interpreters() -> Seq<Seq<char>> {
    seq!["python3"@, "python"@]
}

/// The error for an interpreter that is not on `PATH`.
pub open spec fn missing_message(py: Seq<char>) -> Seq<char> {
    py + " no está en el PATH"@
}

/// The error when no interpreter was tried at all.
pub open spec fn no_python_message() -> Seq<char> {
    "No se encuentra python3 ni python en el PATH. Instala Python 3 (solo hace falta para el script antiguo youtube-dl)."@
}

/// What came of starting a program.
#[derive(Debug, PartialEq, Eq)]
pub enum SpawnOutcome {
    /// The process runs.
    Started,
    /// The program was not found.
    NotFound,
    /// Starting failed otherwise, with this error.
    Failed(String),
}

/// What to do next while starting the downloader script.
#[derive(Debug, PartialEq, Eq)]
pub enum LaunchAction {
    /// Start the script with this interpreter.
    Spawn(String),
    /// The process runs: read its output.
    Drain,
    /// Give up with this error.
    Fail(String),
}

/// Where the interpreter search stands: the index of the interpreter last started and
/// the error for the last one that was missing.
#[derive(Debug)]
pub struct PythonLaunch {
    pub next: usize,
    pub last_missing: Option<String>,
}

/// The index after a missing interpreter.
pub open spec fn after_missing(n: usize) -> usize {
    if n < 2 {
        (n + 1) as usize
    } else {
        n
    }
}

/// The last error after interpreter `n` was found missing.
pub open spec fn missing_after(n: usize, last: Option<Seq<char>>) -> Option<Seq<char>> {
    if n < 2 {
        Some(missing_message(interpreters()[n as int]))
    } else {
        last
    }
}

/// The error when every interpreter was tried.
pub open spec fn give_up_message(last: Option<Seq<char>>) -> Seq<char> {
    match last {
        Some(t) => t,
        None => no_python_message(),
    }
}

/// The name of interpreter `i`.
fn interpreter(i: usize) -> (r: &'static str)
    requires
        i < 2,
    ensures
        r@ == interpreters()[i as int],
{
    if i == 0 {
        "python3"
    } else {
        "python"
    }
}

/// The first step: start the script with `python3`.
pub fn python_launch_start() -> (r: (PythonLaunch, LaunchAction))
    ensures
        r.0.next == 0,
        r.0.last_missing is None,
        r.1 matches LaunchAction::Spawn(s) && s@ == interpreters()[0],
{
    (PythonLaunch { next: 0, last_missing: None }, LaunchAction::Spawn(String::from_str(interpreter(0))))
}

/// The next step after starting the script with the current interpreter: a running
/// process is read, another error ends the search, and a missing interpreter leads to
/// the next one, or, after the last, to the error for the last one missing.
pub fn python_launch_step(state: &PythonLaunch, outcome: &SpawnOutcome) -> (r: (PythonLaunch, LaunchAction))
    ensures
        (match outcome {
            SpawnOutcome::Started => {
                &&& r.0.next == state.next
                &&& opt_str(r.0.last_missing) == opt_str(state.last_missing)
                &&& r.1 is Drain
            },
            SpawnOutcome::Failed(e) => {
                &&& r.0.next == state.next
                &&& opt_str(r.0.last_missing) == opt_str(state.last_missing)
                &&& r.1 matches LaunchAction::Fail(m) && m@ == e@
            },
            SpawnOutcome::NotFound => {
                &&& r.0.next == after_missing(state.next)
                &&& opt_str(r.0.last_missing) == missing_after(state.next, opt_str(state.last_missing))
                &&& r.0.next < 2 ==> (r.1 matches LaunchAction::Spawn(s) && s@ == interpreters()[r.0.next as int])
                &&& r.0.next >= 2 ==> (r.1 matches LaunchAction::Fail(m) && m@ == give_up_message(
                    missing_after(state.next, opt_str(state.last_missing)),
                ))
            },
        }),
{
    let keep = match &state.last_missing {
        Some(t) => Some(t.clone()),
        None => None,
    };
    proof {
        if state.last_missing is Some {
            assert(opt_str(keep) == opt_str(state.last_missing));
        }
    }
    match outcome {
        SpawnOutcome::Started => (PythonLaunch { next: state.next, last_missing: keep }, LaunchAction::Drain),
        SpawnOutcome::Failed(e) => (
            PythonLaunch { next: state.next, last_missing: keep },
            LaunchAction::Fail(e.clone()),
        ),
        SpawnOutcome::NotFound => {
            let last = if state.next < 2 {
                let mut m = String::from_str(interpreter(state.next));
                m.append(" no está en el PATH");
                Some(m)
            } else {
                keep
            };
            let next = if state.next < 2 {
                state.next + 1
            } else {
                state.next
            };
            let action = if next < 2 {
                LaunchAction::Spawn(String::from_str(interpreter(next)))
            } else {
                match &last {
                    Some(t) => LaunchAction::Fail(t.clone()),
                    None => LaunchAction::Fail(
                        String::from_str(
                            "No se encuentra python3 ni python en el PATH. Instala Python 3 (solo hace falta para el script antiguo youtube-dl).",
                        ),
                    ),
                }
            };
            (PythonLaunch { next, last_missing: last }, action)
        },
    }
}

/// Whatever was found and whatever the mode, a run downloads a single item (`--no-playlist`,
/// `--max-downloads 1`) and the link is the last argument.
pub proof fn law_single_item_and_link_last(
    mode: DownloadMode,
    url: Seq<char>,
    output_dir: Seq<char>,
    ffmpeg_dir: Option<Seq<char>>,
    deno: Option<Seq<char>>,
    node: Option<Seq<char>>,
    p: Platform,
)
    ensures
        ({
            let a = downloader_arg_list(mode, url, output_dir, ffmpeg_dir, deno, node, p);
            &&& a[1] == "--no-playlist"@
            &&& a[2] == "--max-downloads"@
            &&& a[3] == "1"@
            &&& a.last() == url
        }),
{
}

/// Deno comes before Node.js when both are found.
pub proof fn law_deno_before_node(deno: Seq<char>, node: Seq<char>)
    ensures
        runtime_args(Some(deno), Some(node)) == seq!["--js-runtimes"@, deno, "--js-runtimes"@, node],
{
    assert(runtime_args(Some(deno), Some(node)) =~= seq!["--js-runtimes"@, deno, "--js-runtimes"@, node]);
}

/// In every mode, when an ffmpeg folder is given, the arguments hold `--ffmpeg-location`
/// immediately followed by that folder, before the link.
pub proof fn law_ffmpeg_location_passed(
    mode: DownloadMode,
    url: Seq<char>,
    output_dir: Seq<char>,
    ffmpeg_dir: Seq<char>,
    deno: Option<Seq<char>>,
    node: Option<Seq<char>>,
    p: Platform,
)
    ensures
        ({
            let a = downloader_arg_list(mode, url, output_dir, Some(ffmpeg_dir), deno, node, p);
            exists|i: int| 0 <= i && i + 2 < a.len() && #[trigger] a[i] == "--ffmpeg-location"@ && a[i + 1] == ffmpeg_dir
        }),
{
    let a = downloader_arg_list(mode, url, output_dir, Some(ffmpeg_dir), deno, node, p);
    assert(a[6] == "--ffmpeg-location"@ && a[7] == ffmpeg_dir);
    assert(6 + 2 < a.len());
}

/// Without an ffmpeg folder no `--ffmpeg-location` is passed; without runtimes no
/// `--js-runtimes`; and MP3 extraction (`-x --audio-format mp3`) is asked for exactly in
/// audio mode, just before the link.
pub proof fn law_optional_arguments(
    mode: DownloadMode,
    url: Seq<char>,
    output_dir: Seq<char>,
    p: Platform,
)
    ensures
        ({
            let a = downloader_arg_list(mode, url, output_dir, None, None, None, p);
            &&& mode == DownloadMode::Audio ==> a.len() == 10 && a[6] == "-x"@ && a[7] == "--audio-format"@
                && a[8] == "mp3"@
            &&& mode != DownloadMode::Audio ==> a.len() == 7
            &&& a[4] == "-o"@
            &&& a[5] == join(output_dir, output_template(), p)
        }),
{
    let a = downloader_arg_list(mode, url, output_dir, None, None, None, p);
    if mode == DownloadMode::Audio {
        assert(a =~= seq![
            "--no-check-certificate"@,
            "--no-playlist"@,
            "--max-downloads"@,
            "1"@,
            "-o"@,
            join(output_dir, output_template(), p),
            "-x"@,
            "--audio-format"@,
            "mp3"@,
            url,
        ]);
    } else {
        assert(a =~= seq![
            "--no-check-certificate"@,
            "--no-playlist"@,
            "--max-downloads"@,
            "1"@,
            "-o"@,
            join(output_dir, output_template(), p),
            url,
        ]);
    }
}

/// The argument list has seven fixed entries, two more for each of the ffmpeg folder,
/// Deno and Node.js when given, and three more in audio mode; those three are
/// `-x --audio-format mp3`, just before the link.
pub proof fn law_argument_count_and_audio(
    mode: DownloadMode,
    url: Seq<char>,
    output_dir: Seq<char>,
    ffmpeg_dir: Option<Seq<char>>,
    deno: Option<Seq<char>>,
    node: Option<Seq<char>>,
    p: Platform,
)
    ensures
        ({
            let a = downloader_arg_list(mode, url, output_dir, ffmpeg_dir, deno, node, p);
            &&& a.len() == 7 + (if ffmpeg_dir is Some { 2int } else { 0int }) + (if deno is Some { 2int } else { 0int })
                + (if node is Some { 2int } else { 0int }) + (if mode == DownloadMode::Audio { 3int } else { 0int })
            &&& mode == DownloadMode::Audio ==> a[a.len() - 4] == "-x"@ && a[a.len() - 3] == "--audio-format"@
                && a[a.len() - 2] == "mp3"@
        }),
{
}

/// Each JavaScript runtime found is passed as `--js-runtimes` followed by its value,
/// Deno's before Node.js's.
pub proof fn law_runtimes_passed(
    mode: DownloadMode,
    url: Seq<char>,
    output_dir: Seq<char>,
    ffmpeg_dir: Option<Seq<char>>,
    deno: Option<Seq<char>>,
    node: Option<Seq<char>>,
    p: Platform,
)
    ensures
        ({
            let a = downloader_arg_list(mode, url, output_dir, ffmpeg_dir, deno, node, p);
            let base = 6 + (if ffmpeg_dir is Some { 2int } else { 0int });
            let nd = base + (if deno is Some { 2int } else { 0int });
            &&& deno matches Some(x) ==> a[base] == "--js-runtimes"@ && a[base + 1] == x
            &&& node matches Some(y) ==> a[nd] == "--js-runtimes"@ && a[nd + 1] == y
        }),
{
    let a = downloader_arg_list(mode, url, output_dir, ffmpeg_dir, deno, node, p);
    let f = match ffmpeg_dir {
        Some(d) => seq!["--ffmpeg-location"@, d],
        None => seq![],
    };
    let head = seq![
        "--no-check-certificate"@,
        "--no-playlist"@,
        "--max-downloads"@,
        "1"@,
        "-o"@,
        join(output_dir, output_template(), p),
    ] + f;
    let tail = (if mode == DownloadMode::Audio {
        seq!["-x"@, "--audio-format"@, "mp3"@]
    } else {
        seq![]
    }) + seq![url];
    assert(a =~= head + runtime_args(deno, node) + tail);
}

} // verus!

use descargador::ytlog::{
    failure_log_entry, infer_output_path_from_downloader_log, percent_candidates, strip_ansi,
    summarize_download, unquote_ytdlp_path, with_saved_note,
};
use descargador::text::decimal_string;

/// Byte-level removal of `ESC [ ... final` sequences and lone `ESC` bytes.
fn strip_bytes(text: &str) -> String {
    let bytes = text.as_bytes();
    let mut out = Vec::with_capacity(bytes.len());
    let mut i = 0;
    while i < bytes.len() {
        if bytes[i] == 0x1b {
            if i + 1 < bytes.len() && bytes[i + 1] == b'[' {
                i += 2;
                while i < bytes.len() && !(0x40..=0x7e).contains(&bytes[i]) {
                    i += 1;
                }
                if i < bytes.len() {
                    i += 1;
                }
            } else {
                i += 1;
            }
        } else {
            out.push(bytes[i]);
            i += 1;
        }
    }
    String::from_utf8_lossy(&out).into_owned()
}

/// The progress value: the first candidate that reads as a number, clamped.
fn percent(line: &str) -> Option<f64> {
    percent_candidates(line)
        .iter()
        .find_map(|c| c.parse::<f64>().ok())
        .map(|v| v.clamp(0.0, 100.0))
}

#[test]
fn strip_ansi_removes_colour_codes() {
    assert_eq!(
        strip_ansi("\u{1b}[0;94m[download]\u{1b}[0m Destination: a.mp4"),
        "[download] Destination: a.mp4"
    );
    assert_eq!(strip_ansi("a\u{1b}b"), "ab");
    assert_eq!(strip_ansi("a\u{1b}[12"), "a");
    assert_eq!(strip_ansi("x\u{1b}[é€1mY"), "xY");
    assert_eq!(strip_ansi("plain ñ text"), "plain ñ text");
    assert_eq!(strip_ansi(""), "");
}

#[test]
fn strip_ansi_agrees_with_byte_level_stripping() {
    let samples = [
        "\u{1b}[31mrojo\u{1b}[0m",
        "\u{1b}",
        "\u{1b}[",
        "\u{1b}\u{1b}[m\u{1b}x",
        "ä\u{1b}[ü;ö~tail",
        "[download]  12.5% of ~ 3.1MiB",
        "\u{1b}[K\u{1b}[1A\r\u{1b}[2Kdone",
    ];
    for s in samples {
        assert_eq!(strip_ansi(s), strip_bytes(s), "{s:?}");
        assert_eq!(strip_ansi(&strip_ansi(s)), strip_ansi(s));
        assert!(!strip_ansi(s).contains('\u{1b}'));
    }
}

#[test]
fn unquote_removes_whitespace_and_quotes() {
    assert_eq!(unquote_ytdlp_path("  \"/tmp/a b.mp4\" "), "/tmp/a b.mp4");
    assert_eq!(unquote_ytdlp_path("'/tmp/x.mp3'"), "/tmp/x.mp3");
    assert_eq!(unquote_ytdlp_path("\"'/tmp/y'\""), "/tmp/y");
    assert_eq!(unquote_ytdlp_path("/plain"), "/plain");
    assert_eq!(unquote_ytdlp_path("\"\""), "");
}

#[test]
fn output_path_from_download_lines() {
    let err = "[youtube] x: Downloading webpage\n[download] Destination: /d/Song [x].webm\n[download] 100% of 3MiB\n";
    assert_eq!(
        infer_output_path_from_downloader_log(err, ""),
        Some("/d/Song [x].webm".to_string())
    );
    let merged = "[download] Destination: /d/a.f1.mp4\n[Merger] Merging formats into \"/d/a.mkv\"\n";
    assert_eq!(
        infer_output_path_from_downloader_log(merged, ""),
        Some("/d/a.mkv".to_string())
    );
    let already = "[download] /d/b.mp4 has already been downloaded\n";
    assert_eq!(
        infer_output_path_from_downloader_log("", already),
        Some("/d/b.mp4".to_string())
    );
    let been = "[download] /d/c.mp4 has been downloaded";
    assert_eq!(
        infer_output_path_from_downloader_log(been, ""),
        Some("/d/c.mp4".to_string())
    );
    let audio = "[ExtractAudio] Destination: /d/s.mp3\r\n";
    assert_eq!(
        infer_output_path_from_downloader_log(audio, ""),
        Some("/d/s.mp3".to_string())
    );
    let kept = "[ExtractAudio] Not converting audio /d/s.m4a; file is already in target format mp3\n";
    assert_eq!(
        infer_output_path_from_downloader_log(kept, ""),
        Some("/d/s.m4a".to_string())
    );
    let coloured = "\u{1b}[0;94m[download]\u{1b}[0m Destination: /d/col.mp4\n";
    assert_eq!(
        infer_output_path_from_downloader_log(coloured, ""),
        Some("/d/col.mp4".to_string())
    );
    let odd = "   [ffmpeg] [download] note Destination: /d/odd.mp4  ";
    assert_eq!(
        infer_output_path_from_downloader_log(odd, ""),
        Some("/d/odd.mp4".to_string())
    );
    let merger_inside = "x [Merger] Merging formats into /d/m.mp4";
    assert_eq!(
        infer_output_path_from_downloader_log(merger_inside, ""),
        Some("/d/m.mp4".to_string())
    );
    assert_eq!(infer_output_path_from_downloader_log("[youtube] nothing\n", "done"), None);
}

#[test]
fn output_path_reads_stdout_after_stderr() {
    let err = "[download] Destination: /d/first.mp4\n";
    let out = "[download] Destination: /d/second.mp4\n[info] ok\n";
    assert_eq!(
        infer_output_path_from_downloader_log(err, out),
        Some("/d/second.mp4".to_string())
    );
    assert_eq!(
        infer_output_path_from_downloader_log(err, "[info] nothing"),
        Some("/d/first.mp4".to_string())
    );
}

#[test]
fn percent_in_progress_lines() {
    assert_eq!(
        percent_candidates("[download]  45.2% of 10.00MiB at 1.2MiB/s"),
        vec!["45.2", "45.2"]
    );
    assert_eq!(percent("[download]  45.2% of 10.00MiB"), Some(45.2));
    assert_eq!(percent("[download] 100% of 3MiB"), Some(100.0));
    assert_eq!(percent("[download] 150.0% weird"), Some(100.0));
    assert_eq!(percent("progress:12.5%done"), Some(12.5));
    assert_eq!(percent_candidates("progress:12.5%done"), vec!["12.5"]);
    assert_eq!(percent("no number here %"), None);
    assert_eq!(percent("nothing"), None);
    assert_eq!(percent_candidates("a% 7%"), vec!["a", "7"]);
    assert_eq!(percent("a% 7%"), Some(7.0));
}

#[test]
fn report_for_a_finished_download() {
    let r = summarize_download(Some(0), "out line\n", "[download] Destination: /d/v.mp4\n");
    assert!(r.succeeded);
    assert_eq!(
        r.message,
        "Listo (código de salida 0).\n— salida estándar —\nout line\n\n— registro del descargador —\n[download] Destination: /d/v.mp4\n"
    );
    assert_eq!(r.output_path, Some("/d/v.mp4".to_string()));
}

#[test]
fn report_for_the_download_limit() {
    let r = summarize_download(Some(101), "", "");
    assert!(r.succeeded);
    assert_eq!(r.message, "Listo (código de salida 101).\n(sin salida)");
    let s = summarize_download(
        Some(1),
        "",
        "ERROR: --max-downloads reached: Maximum number of downloads reached, stopping due to it",
    );
    assert!(s.succeeded);
    let t = summarize_download(None, "", "Stopping due to --MAX-DOWNLOADS");
    assert!(t.succeeded);
    assert!(t.message.starts_with("Listo (código de salida -1).\n"));
}

#[test]
fn report_for_a_failed_download() {
    let r = summarize_download(Some(2), "  \n", "ERROR: Video unavailable\n");
    assert!(!r.succeeded);
    assert_eq!(
        r.message,
        "La descarga falló (código de salida 2).\n— registro del descargador —\nERROR: Video unavailable\n"
    );
    assert_eq!(r.output_path, None);
    let s = summarize_download(None, "", "");
    assert!(!s.succeeded);
    assert_eq!(s.message, "La descarga falló (código de salida -1).\n(sin salida)");
    let t = summarize_download(Some(1), "", "max-downloads only");
    assert!(!t.succeeded);
}

#[test]
fn notes_and_log_entries() {
    assert_eq!(
        with_saved_note("Falló.", Some("/logs/download-errors.log")),
        "Falló.\n\nTambién guardado en:\n/logs/download-errors.log"
    );
    assert_eq!(with_saved_note("Falló.", None), "Falló.");
    assert_eq!(failure_log_entry(1700000000, "msg"), "\n--- 1700000000 ---\nmsg\n");
    assert_eq!(failure_log_entry(0, ""), "\n--- 0 ---\n\n");
}

#[test]
fn decimal_forms() {
    for n in [0, 7, 10, 101, -1, -45, i32::MAX, i32::MIN] {
        assert_eq!(decimal_string(n), n.to_string());
    }
}

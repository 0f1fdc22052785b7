use descargador::command::{apply_mode_and_url, looks_like_python_script};
use descargador::mode::DownloadMode;
use descargador::platform::Platform;
use descargador::settings::{
    acknowledge_first_run_tip, bootstrap_ui, display_path, effective_download_dir,
    remember_download_folder, stored_download_dir_path, trimmed, AppConfig,
};
use descargador::text::{chars_of, lines_exec, split_on_exec, string_of, trim_chars, words_exec};

fn texts(v: Vec<Vec<char>>) -> Vec<String> {
    v.iter().map(|x| x.iter().collect()).collect()
}

#[test]
fn text_operations_agree_with_std() {
    let samples = [
        "",
        "a",
        "a\n",
        "\n",
        "a\r\nb\r",
        "a\n\nb\n\n",
        "  two  words\there\u{3000}x ",
        "\r\n\r\n",
        "uno\u{85}dos",
    ];
    for s in samples {
        let v = chars_of(s);
        assert_eq!(
            texts(lines_exec(&v)),
            s.lines().map(String::from).collect::<Vec<_>>(),
            "lines of {s:?}"
        );
        assert_eq!(
            texts(words_exec(&v)),
            s.split_whitespace().map(String::from).collect::<Vec<_>>(),
            "words of {s:?}"
        );
        assert_eq!(
            texts(split_on_exec(&v, '\n')),
            s.split('\n').map(String::from).collect::<Vec<_>>()
        );
        assert_eq!(string_of(&trim_chars(&v)), s.trim());
    }
}

#[test]
fn downloader_arguments() {
    let a = apply_mode_and_url(
        DownloadMode::Audio,
        "https://youtu.be/x",
        "/home/u/Music",
        Some("/deps/bin"),
        Some("deno:/deps/deno"),
        Some("node:/usr/bin/node"),
        Platform::Unix,
    );
    assert_eq!(
        a,
        vec![
            "--no-check-certificate",
            "--no-playlist",
            "--max-downloads",
            "1",
            "-o",
            "/home/u/Music/%(title)s [%(id)s].%(ext)s",
            "--ffmpeg-location",
            "/deps/bin",
            "--js-runtimes",
            "deno:/deps/deno",
            "--js-runtimes",
            "node:/usr/bin/node",
            "-x",
            "--audio-format",
            "mp3",
            "https://youtu.be/x",
        ]
    );
    let v = apply_mode_and_url(
        DownloadMode::Video,
        "https://youtu.be/y",
        "C:\\Users\\u\\Videos",
        None,
        None,
        Some("node:C:\\node.exe"),
        Platform::Windows,
    );
    assert_eq!(
        v,
        vec![
            "--no-check-certificate",
            "--no-playlist",
            "--max-downloads",
            "1",
            "-o",
            "C:\\Users\\u\\Videos\\%(title)s [%(id)s].%(ext)s",
            "--js-runtimes",
            "node:C:\\node.exe",
            "https://youtu.be/y",
        ]
    );
}

#[test]
fn python_scripts_are_recognised() {
    assert!(looks_like_python_script(b"#!/usr/bin/env python3\nimport sys"));
    assert!(looks_like_python_script(b"#!/usr/bin/PYTHON"));
    assert!(looks_like_python_script(b"#!\xff\xfe python"));
    assert!(!looks_like_python_script(b"#!/bin/sh\nexec yt-dlp"));
    assert!(!looks_like_python_script(b"import python"));
    assert!(!looks_like_python_script(b"#"));
    assert!(!looks_like_python_script(b"\x7fELF\x02\x01\x01"));
    assert!(!looks_like_python_script(b"#!pytho"));
    assert!(looks_like_python_script(b"#!python"));
}

#[test]
fn saved_folder_is_trimmed() {
    let mut cfg = AppConfig::default();
    assert_eq!(stored_download_dir_path(&cfg), None);
    cfg.download_dir = Some("   ".to_string());
    assert_eq!(stored_download_dir_path(&cfg), None);
    remember_download_folder(&mut cfg, "  /home/u/Descargas \n".to_string());
    assert_eq!(stored_download_dir_path(&cfg), Some("/home/u/Descargas".to_string()));
    assert!(!cfg.first_run_tip_acknowledged);
}

#[test]
fn download_folder_choice() {
    assert_eq!(
        effective_download_dir(Some("/saved".to_string()), true, "/app", false),
        Ok("/saved".to_string())
    );
    assert_eq!(
        effective_download_dir(Some("/gone".to_string()), false, "/app", true),
        Ok("/app".to_string())
    );
    assert_eq!(effective_download_dir(None, true, "/app", true), Ok("/app".to_string()));
    assert_eq!(
        effective_download_dir(None, false, "/app", false),
        Err("La carpeta de descarga por defecto no es válida: /app.".to_string())
    );
}

#[test]
fn welcome_note_until_acknowledged() {
    let mut cfg = AppConfig {
        download_dir: Some("/x".to_string()),
        first_run_tip_acknowledged: false,
    };
    let ui = bootstrap_ui("/x".to_string(), &cfg);
    assert!(ui.show_first_run_tip);
    assert_eq!(ui.download_folder, "/x");
    acknowledge_first_run_tip(&mut cfg);
    assert!(!bootstrap_ui("/x".to_string(), &cfg).show_first_run_tip);
    assert_eq!(cfg.download_dir, Some("/x".to_string()));
}

#[test]
fn small_text_helpers() {
    assert_eq!(display_path("/a/b c"), "/a/b c");
    assert_eq!(trimmed("  /a  "), "/a");
}

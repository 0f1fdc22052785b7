use descargador::locate::{
    bundled_ffmpeg_dir, dev_dependencies_path, downloader_probe_paths, downloader_resource_paths,
    ff_dir_and_probe_ok, first_existing_in_dir, missing_downloader_message, resolve_deno_js_flag,
    resolve_ffmpeg_bin_dir, resolve_node_js_flag, tool_probe_paths, try_dev_dependencies, FileSet,
};
use descargador::platform::{
    candidate_names, deno_exe_name, deps_platform_dir_name, ffmpeg_exe_name, ffprobe_exe_name,
    join_path, node_exe_name, Platform,
};

fn files(paths: &[&str]) -> FileSet {
    let mut f = FileSet::new();
    for p in paths {
        f.insert(p);
    }
    f
}

#[test]
fn program_names_per_platform() {
    assert_eq!(candidate_names(Platform::Unix), vec!["yt-dlp", "youtube-dl"]);
    assert_eq!(
        candidate_names(Platform::Windows),
        vec!["yt-dlp.exe", "youtube-dl.exe"]
    );
    assert_eq!(deps_platform_dir_name(Platform::Unix), "mac");
    assert_eq!(deps_platform_dir_name(Platform::Windows), "windows");
    assert_eq!(ffmpeg_exe_name(Platform::Unix), "ffmpeg");
    assert_eq!(ffmpeg_exe_name(Platform::Windows), "ffmpeg.exe");
    assert_eq!(ffprobe_exe_name(Platform::Windows), "ffprobe.exe");
    assert_eq!(deno_exe_name(Platform::Unix), "deno");
    assert_eq!(node_exe_name(Platform::Windows), "node.exe");
}

#[test]
fn joining_paths() {
    assert_eq!(join_path("/a", "b", Platform::Unix), "/a/b");
    assert_eq!(join_path("/a/", "b", Platform::Unix), "/a/b");
    assert_eq!(join_path("", "b", Platform::Unix), "b");
    assert_eq!(join_path("a\\", "b", Platform::Unix), "a\\/b");
    assert_eq!(join_path("C:\\tools", "x.exe", Platform::Windows), "C:\\tools\\x.exe");
    assert_eq!(join_path("C:/tools/", "x.exe", Platform::Windows), "C:/tools/x.exe");
    assert_eq!(join_path("C:", "x.exe", Platform::Windows), "C:x.exe");
    assert_eq!(join_path("C:\\", "x.exe", Platform::Windows), "C:\\x.exe");
}

#[test]
fn joining_matches_std_on_unix() {
    for dir in ["/usr/bin", "/usr/bin/", "", "rel/dir", "/", "a//", "./x", "/opt/homebrew/bin"] {
        for name in ["ffmpeg", "bin", "../../dependencies", "%(title)s [%(id)s].%(ext)s"] {
            let expected = std::path::Path::new(dir).join(name);
            assert_eq!(
                join_path(dir, name, Platform::Unix),
                expected.to_str().unwrap(),
                "{dir} + {name}"
            );
        }
    }
}

#[test]
fn downloader_prefers_ytdlp() {
    let both = files(&["/deps/yt-dlp", "/deps/youtube-dl"]);
    assert_eq!(
        first_existing_in_dir("/deps", Platform::Unix, &both),
        Some("/deps/yt-dlp".to_string())
    );
    let legacy = files(&["/deps/youtube-dl"]);
    assert_eq!(
        first_existing_in_dir("/deps", Platform::Unix, &legacy),
        Some("/deps/youtube-dl".to_string())
    );
    assert_eq!(first_existing_in_dir("/deps", Platform::Unix, &FileSet::new()), None);
    let win = files(&["D:\\app\\youtube-dl.exe"]);
    assert_eq!(
        first_existing_in_dir("D:\\app", Platform::Windows, &win),
        Some("D:\\app\\youtube-dl.exe".to_string())
    );
    assert_eq!(
        downloader_probe_paths("/deps", Platform::Unix),
        vec!["/deps/yt-dlp", "/deps/youtube-dl"]
    );
}

#[test]
fn development_dependencies() {
    assert_eq!(
        dev_dependencies_path("/repo/app/src-tauri", Platform::Unix),
        "/repo/app/src-tauri/../../dependencies/mac"
    );
    let f = files(&["/repo/app/src-tauri/../../dependencies/mac/yt-dlp"]);
    assert_eq!(
        try_dev_dependencies("/repo/app/src-tauri", Platform::Unix, &f),
        Some((
            "/repo/app/src-tauri/../../dependencies/mac".to_string(),
            "/repo/app/src-tauri/../../dependencies/mac/yt-dlp".to_string()
        ))
    );
    assert_eq!(
        try_dev_dependencies("/repo/app/src-tauri", Platform::Unix, &FileSet::new()),
        None
    );
    assert_eq!(
        dev_dependencies_path("C:\\repo\\app\\src-tauri", Platform::Windows),
        "C:\\repo\\app\\src-tauri\\../../dependencies\\windows"
    );
}

#[test]
fn ffmpeg_bundled_first() {
    let f = files(&["/deps/bin/ffmpeg", "/deps/bin/ffprobe", "/usr/bin/ffmpeg", "/usr/bin/ffprobe"]);
    assert!(ff_dir_and_probe_ok("/deps/bin", Platform::Unix, &f));
    assert!(!ff_dir_and_probe_ok("/deps", Platform::Unix, &f));
    assert_eq!(
        bundled_ffmpeg_dir("/deps", Platform::Unix, &f),
        Some("/deps/bin".to_string())
    );
    assert_eq!(
        resolve_ffmpeg_bin_dir("/deps", "/usr/bin", Platform::Unix, &f),
        Some("/deps/bin".to_string())
    );
    let only_ffmpeg = files(&["/deps/ffmpeg"]);
    assert_eq!(bundled_ffmpeg_dir("/deps", Platform::Unix, &only_ffmpeg), None);
}

#[test]
fn ffmpeg_from_path_then_homebrew() {
    let f = files(&["/usr/bin/ffmpeg", "/usr/bin/ffprobe"]);
    assert_eq!(
        resolve_ffmpeg_bin_dir("/deps", " :/usr/bin/ :/opt/x", Platform::Unix, &f),
        Some("/usr/bin".to_string())
    );
    // The first ffmpeg on PATH lacks ffprobe: PATH is given up, Homebrew is next.
    let g = files(&[
        "/a/ffmpeg",
        "/usr/bin/ffmpeg",
        "/usr/bin/ffprobe",
        "/usr/local/bin/ffmpeg",
        "/usr/local/bin/ffprobe",
    ]);
    assert_eq!(
        resolve_ffmpeg_bin_dir("/deps", "/a:/usr/bin", Platform::Unix, &g),
        Some("/usr/local/bin".to_string())
    );
    // No Homebrew folders on Windows.
    let w = files(&["/usr/local/bin\\ffmpeg.exe", "/usr/local/bin\\ffprobe.exe"]);
    assert_eq!(resolve_ffmpeg_bin_dir("C:\\d", "", Platform::Windows, &w), None);
    let root = files(&["//ffmpeg", "/ffmpeg", "/ffprobe"]);
    assert_eq!(
        resolve_ffmpeg_bin_dir("/deps", "//", Platform::Unix, &root),
        Some("/".to_string())
    );
    let winpath = files(&["C:\\ff\\ffmpeg.exe", "C:\\ff\\ffprobe.exe"]);
    assert_eq!(
        resolve_ffmpeg_bin_dir("D:\\deps", "C:\\x;C:\\ff\\", Platform::Windows, &winpath),
        Some("C:\\ff".to_string())
    );
}

#[test]
fn joining_windows_prefixed_paths() {
    let w = Platform::Windows;
    assert_eq!(join_path("\\\\server\\share", "x.exe", w), "\\\\server\\share\\x.exe");
    // A verbatim folder is rebuilt from its components.
    assert_eq!(join_path("\\\\?\\C:", "x.exe", w), "\\\\?\\C:\\x.exe");
    assert_eq!(join_path("\\\\?\\C:\\", "x.exe", w), "\\\\?\\C:\\x.exe");
    assert_eq!(join_path("\\\\?\\C:\\a\\\\b\\", "x", w), "\\\\?\\C:\\a\\b\\x");
    assert_eq!(join_path("\\\\?\\C:\\a/b", "x", w), "\\\\?\\C:\\a/b\\x");
    assert_eq!(join_path("\\\\?\\C:\\a\\.", "x", w), "\\\\?\\C:\\a\\.\\x");
    assert_eq!(
        join_path("\\\\?\\C:\\crate\\src", "../../dependencies", w),
        "\\\\?\\C:\\dependencies"
    );
    assert_eq!(join_path("\\\\?\\UNC\\srv\\shr", "./x", w), "\\\\?\\UNC\\srv\\shr\\x");
    // Outside a verbatim folder nothing is rebuilt.
    assert_eq!(join_path("C:\\a\\\\", "../x", w), "C:\\a\\\\../x");
}

#[test]
fn ffmpeg_on_windows_shares_and_verbatim_paths() {
    let w = Platform::Windows;
    // The folder of a file at a share root keeps the root separator.
    let share = files(&["\\\\server\\share\\ffmpeg.exe", "\\\\server\\share\\ffprobe.exe"]);
    assert_eq!(
        resolve_ffmpeg_bin_dir("C:\\deps", "\\\\server\\share", w, &share),
        Some("\\\\server\\share\\".to_string())
    );
    let verbatim = files(&["\\\\?\\C:\\ff\\ffmpeg.exe", "\\\\?\\C:\\ff\\ffprobe.exe"]);
    assert_eq!(
        resolve_ffmpeg_bin_dir("C:\\deps", "\\\\?\\C:\\ff\\\\", w, &verbatim),
        Some("\\\\?\\C:\\ff".to_string())
    );
    let drive_root = files(&["\\\\?\\C:\\ffmpeg.exe", "\\\\?\\C:\\ffprobe.exe"]);
    assert_eq!(
        resolve_ffmpeg_bin_dir("C:\\deps", "\\\\?\\C:", w, &drive_root),
        Some("\\\\?\\C:\\".to_string())
    );
    // Where the program's name becomes part of the prefix, the path has no parent and
    // PATH gives nothing.
    let swallowed = files(&["\\\\server\\ffmpeg.exe", "\\\\server\\ffprobe.exe"]);
    assert_eq!(resolve_ffmpeg_bin_dir("C:\\deps", "\\\\server", w, &swallowed), None);
    let unc = files(&["\\\\?\\UNC\\srv\\ffmpeg.exe", "\\\\?\\UNC\\srv\\ffprobe.exe"]);
    assert_eq!(resolve_ffmpeg_bin_dir("C:\\deps", "\\\\?\\UNC\\srv", w, &unc), None);
}

#[test]
fn js_runtimes() {
    let f = files(&["/deps/bin/deno", "/usr/bin/node", "/opt/homebrew/bin/deno"]);
    assert_eq!(
        resolve_deno_js_flag("/deps", "/usr/bin", Platform::Unix, &f),
        Some("deno:/deps/bin/deno".to_string())
    );
    assert_eq!(
        resolve_node_js_flag("/deps", "/usr/bin", Platform::Unix, &f),
        Some("node:/usr/bin/node".to_string())
    );
    let g = files(&["/opt/homebrew/bin/deno", "/usr/local/bin/node"]);
    assert_eq!(
        resolve_deno_js_flag("/deps", "", Platform::Unix, &g),
        Some("deno:/opt/homebrew/bin/deno".to_string())
    );
    assert_eq!(
        resolve_node_js_flag("/deps", "", Platform::Unix, &g),
        Some("node:/usr/local/bin/node".to_string())
    );
    assert_eq!(resolve_node_js_flag("/deps", "", Platform::Windows, &g), None);
}

#[test]
fn probing_listed_paths_is_enough() {
    let everything = files(&[
        "/a/ffmpeg",
        "/b/ffmpeg",
        "/b/ffprobe",
        "/deps/node",
        "/b/deno",
        "/unrelated/file",
    ]);
    let probes = tool_probe_paths("/deps", "/a:/b", Platform::Unix);
    let mut probed = FileSet::new();
    for p in &probes {
        if everything.contains(p) {
            probed.insert(p);
        }
    }
    assert!(probes.contains(&"/b/ffprobe".to_string()));
    assert!(!probes.contains(&"/unrelated/file".to_string()));
    assert_eq!(
        resolve_ffmpeg_bin_dir("/deps", "/a:/b", Platform::Unix, &everything),
        resolve_ffmpeg_bin_dir("/deps", "/a:/b", Platform::Unix, &probed)
    );
    assert_eq!(
        resolve_deno_js_flag("/deps", "/a:/b", Platform::Unix, &probed),
        Some("deno:/b/deno".to_string())
    );
    assert_eq!(
        resolve_node_js_flag("/deps", "/a:/b", Platform::Unix, &probed),
        Some("node:/deps/node".to_string())
    );
}

#[test]
fn resources_and_missing_downloader() {
    assert_eq!(
        downloader_resource_paths(Platform::Unix),
        vec!["dependencies/mac/yt-dlp", "dependencies/mac/youtube-dl"]
    );
    assert_eq!(
        downloader_resource_paths(Platform::Windows),
        vec!["dependencies/windows/yt-dlp.exe", "dependencies/windows/youtube-dl.exe"]
    );
    assert_eq!(
        missing_downloader_message(Platform::Unix, None),
        "No hay descargador incluido. Debe existir uno de [yt-dlp, youtube-dl] en Resources, carpeta dependencies/mac/."
    );
    assert_eq!(
        missing_downloader_message(Platform::Windows, Some("C:\\r\\dependencies\\windows")),
        "No hay descargador en C:\\r\\dependencies\\windows. Añade uno de [yt-dlp.exe, youtube-dl.exe] ahí. Se recomienda yt-dlp (https://github.com/yt-dlp/yt-dlp#release-files )."
    );
}

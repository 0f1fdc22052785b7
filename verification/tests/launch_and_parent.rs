use descargador::command::{python_launch_start, python_launch_step, LaunchAction, SpawnOutcome};
use descargador::locate::{pick_resource_downloader, FileSet};
use descargador::platform::{path_parent, Platform};

fn chars(s: &str) -> Vec<char> {
    s.chars().collect()
}

fn parent_text(s: &str, p: Platform) -> Option<String> {
    path_parent(&chars(s), p).map(|v| v.into_iter().collect())
}

#[test]
fn parent_matches_std_on_unix() {
    for s in [
        "", "/", "//", "a", "a/", "/a", "/a/b", "/a/b/", "./a", ".", "./", "a/.", "a/./", "/.",
        "./.", "a/..", "../a", "a//b//", "/./a/..", "./a/./", "..", "/usr/bin/ffmpeg",
        "rel/dir/file.txt", "a/b/././/",
    ] {
        let expected = std::path::Path::new(s)
            .parent()
            .map(|d| d.to_str().unwrap().to_string());
        assert_eq!(parent_text(s, Platform::Unix), expected, "{s:?}");
    }
}

#[test]
fn parent_on_windows_paths() {
    let w = Platform::Windows;
    assert_eq!(parent_text("C:\\a\\b", w), Some("C:\\a".to_string()));
    assert_eq!(parent_text("C:\\a", w), Some("C:\\".to_string()));
    assert_eq!(parent_text("C:\\", w), None);
    assert_eq!(parent_text("C:a", w), Some("C:".to_string()));
    assert_eq!(parent_text("C:", w), None);
    assert_eq!(parent_text("\\\\server\\share\\x", w), Some("\\\\server\\share\\".to_string()));
    assert_eq!(parent_text("\\\\server\\share\\", w), None);
    assert_eq!(parent_text("\\\\?\\C:\\a\\.", w), Some("\\\\?\\C:\\a".to_string()));
    assert_eq!(parent_text("\\\\?\\C:\\a/b", w), Some("\\\\?\\C:\\".to_string()));
    assert_eq!(parent_text("\\\\.\\pipe\\x", w), Some("\\\\.\\pipe\\".to_string()));
}

#[test]
fn python3_then_python() {
    let (s0, a0) = python_launch_start();
    assert_eq!(a0, LaunchAction::Spawn("python3".to_string()));
    let (s1, a1) = python_launch_step(&s0, &SpawnOutcome::NotFound);
    assert_eq!(a1, LaunchAction::Spawn("python".to_string()));
    assert_eq!(s1.next, 1);
    assert_eq!(s1.last_missing.as_deref(), Some("python3 no está en el PATH"));
    let (_, a2) = python_launch_step(&s1, &SpawnOutcome::NotFound);
    assert_eq!(a2, LaunchAction::Fail("python no está en el PATH".to_string()));
    let (_, started) = python_launch_step(&s1, &SpawnOutcome::Started);
    assert_eq!(started, LaunchAction::Drain);
    let (_, failed) = python_launch_step(&s0, &SpawnOutcome::Failed("permiso denegado".to_string()));
    assert_eq!(failed, LaunchAction::Fail("permiso denegado".to_string()));
}

#[test]
fn resource_downloader_is_first_resolved_file() {
    let mut files = FileSet::new();
    files.insert("/res/dependencies/mac/youtube-dl");
    files.insert("/res/dependencies/mac/yt-dlp");
    let resolved = vec![
        Some("/res/dependencies/mac/yt-dlp".to_string()),
        Some("/res/dependencies/mac/youtube-dl".to_string()),
    ];
    assert_eq!(
        pick_resource_downloader(&resolved, Platform::Unix, &files),
        Some((
            "/res/dependencies/mac".to_string(),
            "/res/dependencies/mac/yt-dlp".to_string()
        ))
    );
    // An unresolved or missing candidate is passed over.
    let later = vec![None, Some("/res/dependencies/mac/youtube-dl".to_string())];
    assert_eq!(
        pick_resource_downloader(&later, Platform::Unix, &files),
        Some((
            "/res/dependencies/mac".to_string(),
            "/res/dependencies/mac/youtube-dl".to_string()
        ))
    );
    // Files that are not among the resolved paths change nothing.
    let mut more = FileSet::new();
    more.insert("/res/dependencies/mac/youtube-dl");
    more.insert("/res/dependencies/mac/yt-dlp");
    more.insert("/elsewhere/yt-dlp");
    more.insert("/res/dependencies/mac");
    assert_eq!(
        pick_resource_downloader(&resolved, Platform::Unix, &more),
        pick_resource_downloader(&resolved, Platform::Unix, &files)
    );
    let missing = vec![Some("/elsewhere/yt-dlp".to_string()), None];
    assert_eq!(pick_resource_downloader(&missing, Platform::Unix, &files), None);
    // A file without a parent is passed over too.
    let mut drive = FileSet::new();
    drive.insert("C:");
    drive.insert("C:\\r\\yt-dlp.exe");
    let w = vec![Some("C:".to_string()), Some("C:\\r\\yt-dlp.exe".to_string())];
    assert_eq!(
        pick_resource_downloader(&w, Platform::Windows, &drive),
        Some(("C:\\r".to_string(), "C:\\r\\yt-dlp.exe".to_string()))
    );
}

use descargador::mode::DownloadMode;
use descargador::request::{
    check_url_parts, ensure_youtube_download_url, validate_download_request, RequestError,
    UrlRejection,
};

#[test]
fn mode_names_are_read_case_insensitively() {
    assert_eq!(DownloadMode::parse("video"), Ok(DownloadMode::Video));
    assert_eq!(DownloadMode::parse("V"), Ok(DownloadMode::Video));
    assert_eq!(DownloadMode::parse("ViDeO"), Ok(DownloadMode::Video));
    assert_eq!(DownloadMode::parse("audio"), Ok(DownloadMode::Audio));
    assert_eq!(DownloadMode::parse("A"), Ok(DownloadMode::Audio));
}

#[test]
fn unknown_mode_message_names_the_input() {
    assert_eq!(
        DownloadMode::parse("mp3"),
        Err("Formato no reconocido: mp3. Usa «video» o «audio».".to_string())
    );
    assert_eq!(
        DownloadMode::parse(" video"),
        Err("Formato no reconocido:  video. Usa «video» o «audio».".to_string())
    );
    assert!(DownloadMode::parse("").is_err());
    assert!(DownloadMode::parse("vídeo").is_err());
}

#[test]
fn youtube_links_are_accepted() {
    for url in [
        "https://www.youtube.com/watch?v=dQw4w9WgXcQ",
        "https://youtu.be/dQw4w9WgXcQ",
        "http://youtube.com/shorts/abc",
        "https://music.youtube.com/watch?v=x",
        "https://m.youtube.com/playlist?list=PL123",
        "  https://www.youtube.com/watch?v=x  ",
        "https://WWW.YouTube.COM/watch?v=x",
        "https://www.youtube.com./watch?v=x",
        "https://www.youtube-nocookie.com/embed/x",
        "https://youtube-nocookie.com/embed/x",
    ] {
        assert_eq!(ensure_youtube_download_url(url), Ok(()), "{url}");
    }
}

#[test]
fn other_links_are_refused_with_the_reason() {
    assert_eq!(
        ensure_youtube_download_url("www.youtube.com/watch?v=x"),
        Err(UrlRejection::NotAbsolute)
    );
    assert_eq!(ensure_youtube_download_url(""), Err(UrlRejection::NotAbsolute));
    assert_eq!(
        ensure_youtube_download_url("ftp://youtube.com/x"),
        Err(UrlRejection::SchemeNotAllowed)
    );
    assert_eq!(
        ensure_youtube_download_url("file:///tmp/video.mp4"),
        Err(UrlRejection::SchemeNotAllowed)
    );
    assert_eq!(
        ensure_youtube_download_url("https://evil.example/youtube.com"),
        Err(UrlRejection::NotYoutube)
    );
    assert_eq!(
        ensure_youtube_download_url("https://notyoutube.com/watch"),
        Err(UrlRejection::NotYoutube)
    );
    assert_eq!(
        ensure_youtube_download_url("https://youtube.com.evil.example/"),
        Err(UrlRejection::NotYoutube)
    );
}

#[test]
fn parsed_parts_are_judged_directly() {
    assert_eq!(check_url_parts(&None), Err(UrlRejection::NotAbsolute));
    assert_eq!(
        check_url_parts(&Some(("http".to_string(), None))),
        Err(UrlRejection::MissingHost)
    );
    assert_eq!(
        check_url_parts(&Some(("https".to_string(), Some("YouTu.be...".to_string())))),
        Ok(())
    );
    assert_eq!(
        check_url_parts(&Some(("HTTPS".to_string(), Some("youtu.be".to_string())))),
        Err(UrlRejection::SchemeNotAllowed)
    );
    assert_eq!(
        check_url_parts(&Some(("https".to_string(), Some("a.youtube.com".to_string())))),
        Ok(())
    );
    assert_eq!(
        check_url_parts(&Some(("https".to_string(), Some(".youtube.com".to_string())))),
        Ok(())
    );
}

#[test]
fn rejection_messages() {
    assert_eq!(
        UrlRejection::SchemeNotAllowed.message(),
        "Solo se permiten enlaces http o https."
    );
    assert_eq!(
        UrlRejection::MissingHost.message(),
        "Ese enlace no incluye el nombre del sitio web."
    );
    assert!(UrlRejection::NotYoutube.message().starts_with("Solo funcionan enlaces de YouTube"));
    assert!(UrlRejection::NotAbsolute.message().contains("https://"));
}

#[test]
fn requests_are_checked_in_order() {
    match validate_download_request("   ", "nada") {
        Err(e @ RequestError::EmptyUrl) => assert_eq!(
            e.message(),
            "Pega un enlace de YouTube arriba y pulsa Descargar."
        ),
        _ => panic!("expected an empty link"),
    }
    match validate_download_request("https://vimeo.com/1", "nada") {
        Err(RequestError::BadUrl(UrlRejection::NotYoutube)) => {}
        _ => panic!("expected a refused link"),
    }
    match validate_download_request("https://youtu.be/x", "  flac ") {
        Err(e @ RequestError::BadMode(_)) => assert_eq!(
            e.message(),
            "Formato no reconocido: flac. Usa «video» o «audio»."
        ),
        _ => panic!("expected an unknown mode"),
    }
    match validate_download_request("  https://youtu.be/x \n", " Audio ") {
        Ok(req) => {
            assert_eq!(req.url, "https://youtu.be/x");
            assert_eq!(req.mode, DownloadMode::Audio);
        }
        _ => panic!("expected an accepted request"),
    }
}

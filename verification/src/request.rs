//! Checking what the user asked for before anything runs: only YouTube links, and a
//! known download mode.
use vstd::prelude::*;
use vstd::string::StringExecFns;
use crate::mode::{mode_named, unknown_mode_message, DownloadMode};
use crate::text::{chars_of, ends_with, ends_with_exec, eq_chars, lower_chars, lowercase, string_of, trim, trim_chars, trim_end_char, trim_end_char_exec};

verus! {

/// The scheme and host that `url::Url::parse` reads from `input`, or `None` when it
/// reads no absolute URL from it.
pub uninterp spec fn url_scheme_and_host(input: Seq<char>) -> Option<(Seq<char>, Option<Seq<char>>)>;

/// The text of a scheme-and-host pair.
pub open spec fn parts_view(parts: Option<(String, Option<String>)>) -> Option<(Seq<char>, Option<Seq<char>>)> {
    match parts {
        Some((scheme, host)) => Some((scheme@, match host {
            Some(h) => Some(h@),
            None => None,
        })),
        None => None,
    }
}

/// Parses `input` with `url::Url::parse` and keeps its scheme (`Url::scheme`) and host
/// (`Url::host_str`). The parse itself is the url crate's: its result is only named here.
#[verifier::external_body]
fn parse_scheme_and_host(input: &str) -> (r: Option<(String, Option<String>)>)
    ensures
        parts_view(r) == url_scheme_and_host(input@),
{
    match url::Url::parse(input) {
        Ok(u) => Some((u.scheme().to_string(), match u.host_str() {
            Some(h) => Some(h.to_string()),
            None => None,
        })),
        Err(_) => None,
    }
}

/// Why a link was refused.
#[derive(Clone, Copy, Debug, PartialEq, Eq, Structural)]
pub enum UrlRejection {
    /// No absolute URL could be read from it.
    NotAbsolute,
    /// Its scheme is neither `http` nor `https`.
    SchemeNotAllowed,
    /// It names no host.
    MissingHost,
    /// Its host is not YouTube.
    NotYoutube,
}

/// A host (lower-cased, trailing dots removed) that belongs to YouTube: `youtu.be`,
/// `youtube.com` or `youtube-nocookie.com`, or a subdomain of the last two.
pub open spec fn youtube_host(h: Seq<char>) -> bool {
    ||| h == "youtu.be"@
    ||| h == "youtube.com"@
    ||| ends_with(h, ".youtube.com"@)
    ||| h == "youtube-nocookie.com"@
    ||| ends_with(h, ".youtube-nocookie.com"@)
}

/// A host as it is compared: trailing dots removed, then ASCII lower case.
pub open spec fn normal_host(h: Seq<char>) -> Seq<char> {
    lowercase(trim_end_char(h, '.'))
}

/// The verdict on a parsed link.
pub open spec fn url_verdict(parts: Option<(Seq<char>, Option<Seq<char>>)>) -> Result<(), UrlRejection> {
    match parts {
        None => Err(UrlRejection::NotAbsolute),
        Some((scheme, host)) => if !(scheme == "http"@ || scheme == "https"@) {
            Err(UrlRejection::SchemeNotAllowed)
        } else {
            match host {
                None => Err(UrlRejection::MissingHost),
                Some(h) => if youtube_host(normal_host(h)) {
                    Ok(())
                } else {
                    Err(UrlRejection::NotYoutube)
                },
            }
        },
    }
}

/// The verdict on a link the user typed.
pub open spec fn link_verdict(url: Seq<char>) -> Result<(), UrlRejection> {
    url_verdict(url_scheme_and_host(trim(url)))
}

/// The message shown for a refused link.
pub open spec fn rejection_text(e: UrlRejection) -> Seq<char> {
    match e {
        UrlRejection::NotAbsolute => "Usa un enlace completo que empiece por https:// (cópialo de la barra de direcciones o de Compartir en YouTube)."@,
        UrlRejection::SchemeNotAllowed => "Solo se permiten enlaces http o https."@,
        UrlRejection::MissingHost => "Ese enlace no incluye el nombre del sitio web."@,
        UrlRejection::NotYoutube => "Solo funcionan enlaces de YouTube (youtube.com, youtu.be, Música, Shorts). Pega un enlace de YouTube."@,
    }
}

impl UrlRejection {
    /// The message shown for this refusal.
    pub fn message(&self) -> (r: String)
        ensures
            r@ == rejection_text(*self),
    {
        match self {
            UrlRejection::NotAbsolute => String::from_str(
                "Usa un enlace completo que empiece por https:// (cópialo de la barra de direcciones o de Compartir en YouTube).",
            ),
            UrlRejection::SchemeNotAllowed => String::from_str("Solo se permiten enlaces http o https."),
            UrlRejection::MissingHost => String::from_str("Ese enlace no incluye el nombre del sitio web."),
            UrlRejection::NotYoutube => String::from_str(
                "Solo funcionan enlaces de YouTube (youtube.com, youtu.be, Música, Shorts). Pega un enlace de YouTube.",
            ),
        }
    }
}

fn is_youtube_host(h: &Vec<char>) -> (b: bool)
    ensures
        b == youtube_host(h@),
{
    eq_chars(h, &chars_of("youtu.be")) || eq_chars(h, &chars_of("youtube.com")) || ends_with_exec(
        h,
        &chars_of(".youtube.com"),
    ) || eq_chars(h, &chars_of("youtube-nocookie.com")) || ends_with_exec(
        h,
        &chars_of(".youtube-nocookie.com"),
    )
}

/// Decides on a parsed link: it must be `http`/`https` and point at a YouTube host.
pub fn check_url_parts(parts: &Option<(String, Option<String>)>) -> (r: Result<(), UrlRejection>)
    ensures
        r == url_verdict(parts_view(*parts)),
{
    match parts {
        None => Err(UrlRejection::NotAbsolute),
        Some((scheme, host)) => {
            let s = chars_of(scheme.as_str());
            if !(eq_chars(&s, &chars_of("http")) || eq_chars(&s, &chars_of("https"))) {
                return Err(UrlRejection::SchemeNotAllowed);
            }
            match host {
                None => Err(UrlRejection::MissingHost),
                Some(h) => {
                    let n = lower_chars(&trim_end_char_exec(&chars_of(h.as_str()), '.'));
                    if is_youtube_host(&n) {
                        Ok(())
                    } else {
                        Err(UrlRejection::NotYoutube)
                    }
                },
            }
        },
    }
}

/// Accepts only YouTube watch, Shorts, Music and playlist links (any page on a YouTube
/// host), not arbitrary sites: the trimmed link is parsed as a URL and checked.
pub fn ensure_youtube_download_url(url_str: &str) -> (r: Result<(), UrlRejection>)
    ensures
        r == link_verdict(url_str@),
{
    let trimmed = string_of(&trim_chars(&chars_of(url_str)));
    let parts = parse_scheme_and_host(trimmed.as_str());
    check_url_parts(&parts)
}

/// A download the user asked for, once checked.
pub struct DownloadRequest {
    /// The link, trimmed.
    pub url: String,
    /// What to download.
    pub mode: DownloadMode,
}

/// Why a download request was refused.
pub enum RequestError {
    /// The link field was empty.
    EmptyUrl,
    /// The link was refused.
    BadUrl(UrlRejection),
    /// The mode name selects no mode; holds the message.
    BadMode(String),
}

impl RequestError {
    /// The message shown for this refusal.
    pub fn message(&self) -> (r: String)
        ensures
            self matches RequestError::EmptyUrl ==> r@ == "Pega un enlace de YouTube arriba y pulsa Descargar."@,
            self matches RequestError::BadUrl(e) ==> r@ == rejection_text(*e),
            self matches RequestError::BadMode(m) ==> r@ == m@,
    {
        match self {
            RequestError::EmptyUrl => String::from_str("Pega un enlace de YouTube arriba y pulsa Descargar."),
            RequestError::BadUrl(e) => e.message(),
            RequestError::BadMode(m) => string_of(&chars_of(m.as_str())),
        }
    }
}

/// Checks a request in order: the trimmed link must be non-empty and a YouTube link,
/// then the trimmed mode name must select a mode.
pub fn validate_download_request(url: &str, mode: &str) -> (r: Result<DownloadRequest, RequestError>)
    ensures
        (if trim(url@).len() == 0 {
            r matches Err(RequestError::EmptyUrl)
        } else {
            match link_verdict(trim(url@)) {
                Err(e) => r matches Err(RequestError::BadUrl(f)) && f == e,
                Ok(_) => match mode_named(trim(mode@)) {
                    None => r matches Err(RequestError::BadMode(m)) && m@ == unknown_mode_message(
                        trim(mode@),
                    ),
                    Some(md) => r matches Ok(req) && req.url@ == trim(url@) && req.mode == md,
                },
            }
        }),
{
    let u = string_of(&trim_chars(&chars_of(url)));
    if u.as_str().unicode_len() == 0 {
        return Err(RequestError::EmptyUrl);
    }
    match ensure_youtube_download_url(u.as_str()) {
        Err(e) => Err(RequestError::BadUrl(e)),
        Ok(()) => {
            let m = string_of(&trim_chars(&chars_of(mode)));
            match DownloadMode::parse(m.as_str()) {
                Ok(md) => Ok(DownloadRequest { url: u, mode: md }),
                Err(msg) => Err(RequestError::BadMode(msg)),
            }
        },
    }
}

/// Only YouTube links get through: an accepted link parses as an `http`/`https` URL whose
/// host, without trailing dots and in lower case, is YouTube's.
pub proof fn law_only_youtube_links_accepted(url: Seq<char>)
    ensures
        link_verdict(url) is Ok ==> (url_scheme_and_host(trim(url)) matches Some((scheme, Some(h))) && (
        scheme == "http"@ || scheme == "https"@) && youtube_host(normal_host(h))),
{
}

/// Every subdomain of `youtube.com` is accepted over `https`.
pub proof fn law_youtube_subdomains_accepted(sub: Seq<char>)
    ensures
        youtube_host(sub + ".youtube.com"@),
{
    let h = sub + ".youtube.com"@;
    assert(h.skip(h.len() - ".youtube.com"@.len()) =~= ".youtube.com"@);
}

} // verus!

//! The saved settings, and the folder downloads go to.
use vstd::prelude::*;
use vstd::string::StringExecFns;
use crate::text::{chars_of, opt_str, string_of, trim, trim_chars};

verus! {

/// The settings kept between runs.
pub struct AppConfig {
    /// The folder the user picked for downloads, as saved.
    pub download_dir: Option<String>,
    /// The welcome note has been shown once and need not be shown again.
    pub first_run_tip_acknowledged: bool,
}

impl Default for AppConfig {
    /// No folder picked, welcome note not yet shown.
    fn default() -> (r: AppConfig)
        ensures
            r.download_dir is None,
            !r.first_run_tip_acknowledged,
    {
        AppConfig { download_dir: None, first_run_tip_acknowledged: false }
    }
}

/// The saved download folder, trimmed, unless it is blank.
pub open spec fn stored_dir(cfg: AppConfig) -> Option<Seq<char>> {
    match cfg.download_dir {
        Some(s) => if trim(s@).len() > 0 {
            Some(trim(s@))
        } else {
            None
        },
        None => None,
    }
}

/// The saved download folder, trimmed; `None` when none is saved or it is blank.
pub fn stored_download_dir_path(cfg: &AppConfig) -> (r: Option<String>)
    ensures
        opt_str(r) == stored_dir(*cfg),
{
    match &cfg.download_dir {
        Some(s) => {
            let t = trim_chars(&chars_of(s.as_str()));
            if t.len() > 0 {
                Some(string_of(&t))
            } else {
                None
            }
        },
        None => None,
    }
}

/// The message when the fallback download folder is not a folder.
pub open spec fn bad_default_dir_text(fallback: Seq<char>) -> Seq<char> {
    "La carpeta de descarga por defecto no es válida: "@ + fallback + "."@
}

/// The folder downloads go to: the saved folder while it is still a folder, otherwise the
/// folder that holds the application (which must itself be a folder).
pub open spec fn download_dir_choice(
    stored: Option<Seq<char>>,
    stored_is_dir: bool,
    fallback: Seq<char>,
    fallback_is_dir: bool,
) -> Result<Seq<char>, Seq<char>> {
    match stored {
        Some(p) if stored_is_dir => Ok(p),
        _ => if fallback_is_dir {
            Ok(fallback)
        } else {
            Err(bad_default_dir_text(fallback))
        },
    }
}

/// The text of a result of two strings.
pub open spec fn result_view(r: Result<String, String>) -> Result<Seq<char>, Seq<char>> {
    match r {
        Ok(s) => Ok(s@),
        Err(s) => Err(s@),
    }
}

/// Chooses the download folder. `stored` is the saved folder ([`stored_download_dir_path`])
/// and `stored_is_dir` whether it is a folder; `fallback` is the application's folder and
/// `fallback_is_dir` whether it is one.
pub fn effective_download_dir(stored: Option<String>, stored_is_dir: bool, fallback: &str, fallback_is_dir: bool) -> (r: Result<String, String>)
    ensures
        result_view(r) == download_dir_choice(opt_str(stored), stored_is_dir, fallback@, fallback_is_dir),
{
    if let Some(p) = stored {
        if stored_is_dir {
            return Ok(p);
        }
    }
    if !fallback_is_dir {
        let mut msg = String::from_str("La carpeta de descarga por defecto no es válida: ");
        msg.append(fallback);
        msg.append(".");
        return Err(msg);
    }
    Ok(String::from_str(fallback))
}

/// What the window shows when it opens.
pub struct BootstrapUi {
    /// The download folder, as text.
    pub download_folder: String,
    /// Show the welcome note.
    pub show_first_run_tip: bool,
}

/// The window's opening state: the download folder, and the welcome note until it has
/// been acknowledged.
pub fn bootstrap_ui(download_folder: String, cfg: &AppConfig) -> (r: BootstrapUi)
    ensures
        r.download_folder == download_folder,
        r.show_first_run_tip == shows_tip(*cfg),
{
    BootstrapUi { download_folder, show_first_run_tip: !cfg.first_run_tip_acknowledged }
}

/// The settings once the welcome note is acknowledged.
pub open spec fn acknowledged(cfg: AppConfig) -> AppConfig {
    AppConfig { first_run_tip_acknowledged: true, ..cfg }
}

/// The settings once `folder` is picked for downloads.
pub open spec fn with_folder(cfg: AppConfig, folder: String) -> AppConfig {
    AppConfig { download_dir: Some(folder), ..cfg }
}

/// The window shows the welcome note for these settings.
pub open spec fn shows_tip(cfg: AppConfig) -> bool {
    !cfg.first_run_tip_acknowledged
}

/// Records that the welcome note was shown.
pub fn acknowledge_first_run_tip(cfg: &mut AppConfig)
    ensures
        *final(cfg) == acknowledged(*old(cfg)),
{
    cfg.first_run_tip_acknowledged = true;
}

/// Records the folder the user picked for downloads.
pub fn remember_download_folder(cfg: &mut AppConfig, folder: String)
    ensures
        *final(cfg) == with_folder(*old(cfg), folder),
{
    cfg.download_dir = Some(folder);
}

/// A path as text.
pub fn display_path(p: &str) -> (r: String)
    ensures
        r@ == p@,
{
    String::from_str(p)
}

/// `s` without surrounding whitespace.
pub fn trimmed(s: &str) -> (r: String)
    ensures
        r@ == trim(s@),
{
    string_of(&trim_chars(&chars_of(s)))
}

/// Once the welcome note is acknowledged, the window no longer shows it, and the saved
/// download folder is as it was.
pub proof fn law_acknowledged_tip_stays_hidden(cfg: AppConfig)
    ensures
        !shows_tip(acknowledged(cfg)),
        stored_dir(acknowledged(cfg)) == stored_dir(cfg),
{
}

/// A picked folder is what the settings give back as the saved folder (trimmed), unless
/// it is blank; picking a folder leaves the welcome note as it was.
pub proof fn law_picked_folder_is_read_back(cfg: AppConfig, folder: String)
    ensures
        trim(folder@).len() > 0 ==> stored_dir(with_folder(cfg, folder)) == Some(trim(folder@)),
        trim(folder@).len() == 0 ==> stored_dir(with_folder(cfg, folder)) is None,
        shows_tip(with_folder(cfg, folder)) == shows_tip(cfg),
{
}

/// A saved folder that is still a folder is where downloads go, whatever the fallback.
pub proof fn law_saved_folder_wins(stored: Seq<char>, fallback: Seq<char>, fallback_is_dir: bool)
    ensures
        download_dir_choice(Some(stored), true, fallback, fallback_is_dir) == Ok::<Seq<char>, Seq<char>>(stored),
{
}

} // verus!

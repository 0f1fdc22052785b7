//! What the user asked to download: the video, or its audio track as MP3.
use vstd::prelude::*;
use vstd::string::StringExecFns;
use crate::text::{chars_of, eq_chars, lower_chars, lowercase, lower};

verus! {

/// The two download modes.
#[derive(Clone, Copy, Debug, PartialEq, Eq, Structural)]
pub enum DownloadMode {
    Video,
    Audio,
}

/// The mode a (case-insensitive) name selects: `video`/`v` or `audio`/`a`.
pub open spec fn mode_named(s: Seq<char>) -> Option<DownloadMode> {
    let l = lowercase(s);
    if l == seq!['v', 'i', 'd', 'e', 'o'] || l == seq!['v'] {
        Some(DownloadMode::Video)
    } else if l == seq!['a', 'u', 'd', 'i', 'o'] || l == seq!['a'] {
        Some(DownloadMode::Audio)
    } else {
        None
    }
}

/// The message for a mode name that selects nothing.
pub open spec fn unknown_mode_message(s: Seq<char>) -> Seq<char> {
    "Formato no reconocido: "@ + s + ". Usa «video» o «audio»."@
}

impl DownloadMode {
    /// Reads a mode name, ignoring ASCII case.
    pub fn parse(s: &str) -> (r: Result<DownloadMode, String>)
        ensures
            mode_named(s@) matches Some(m) ==> r == Ok::<DownloadMode, String>(m),
            mode_named(s@) is None ==> (r matches Err(msg) && msg@ == unknown_mode_message(s@)),
    {
        let l = lower_chars(&chars_of(s));
        let video = vec!['v', 'i', 'd', 'e', 'o'];
        let v = vec!['v'];
        let audio = vec!['a', 'u', 'd', 'i', 'o'];
        let a = vec!['a'];
        assert(video@ =~= seq!['v', 'i', 'd', 'e', 'o']);
        assert(v@ =~= seq!['v']);
        assert(audio@ =~= seq!['a', 'u', 'd', 'i', 'o']);
        assert(a@ =~= seq!['a']);
        if eq_chars(&l, &video) || eq_chars(&l, &v) {
            Ok(DownloadMode::Video)
        } else if eq_chars(&l, &audio) || eq_chars(&l, &a) {
            Ok(DownloadMode::Audio)
        } else {
            let mut msg = String::from_str("Formato no reconocido: ");
            msg.append(s);
            msg.append(". Usa «video» o «audio».");
            Err(msg)
        }
    }
}

proof fn lemma_lowercase_idempotent(s: Seq<char>)
    ensures
        lowercase(lowercase(s)) == lowercase(s),
{
    assert forall|i: int| 0 <= i < s.len() implies lower(lower(s[i])) == lower(s[i]) by {
        let c = s[i];
        if 'A' <= c && c <= 'Z' {
            assert(((c as u32) + 32) as char == lower(c));
        }
    }
    assert(lowercase(lowercase(s)) =~= lowercase(s));
}

/// Mode names are read without regard to ASCII case: a name and its lower-case form
/// select the same mode.
pub proof fn law_mode_names_ignore_case(s: Seq<char>)
    ensures
        mode_named(s) == mode_named(lowercase(s)),
{
    lemma_lowercase_idempotent(s);
}

} // verus!

//! Newscast audio: which addresses are accepted, and where a downloaded
//! file is kept.
use vstd::prelude::*;

use crate::deps::{regex_is_match, regex_match_result};
use crate::text::{last_segment, last_segment_of, lemma_last_segment, push_str};

verus! {

/// Why an audio file could not be downloaded.
#[derive(Debug)]
pub enum DownloadError {
    ResponseError(String),
    DownloadBodyError(String),
    FileCreateError(String),
    FileSavingError(String),
    LockDownloadError(String),
}

/// Why an audio file or its transcription could not be had.
#[derive(Debug)]
pub enum TranscribeError {
    DownloadError(DownloadError),
    AudioUrlError(String),
    TranscriptionUrlError,
    TranscriptionFileNotFoundError(String),
    TranscriptionFileInvalidError(String),
}

/// The newscast audio files that may be downloaded.
pub const AUDIO_URL_PATTERN: &'static str = r#"^https:\/\/av\.voanews\.com\/clips\/VEN\/\d{4}\/\d{2}\/\d{2}\/\d{8}-\d{6}-VEN119-program\.mp3$"#;

/// The message of the error for an audio address that does not match.
pub const INVALID_AUDIO_URL: &'static str = "Invalid Audio Url.";

/// Where downloaded audio files are kept.
pub const AUDIO_DIR: &'static str = "./assets/newscasts/audios/";

/// The outcome of testing an audio address for a download.
pub open spec fn audio_check_spec(matched: bool, r: Result<(), TranscribeError>) -> bool {
    if matched {
        r is Ok
    } else {
        r matches Err(TranscribeError::AudioUrlError(m)) && m@ == INVALID_AUDIO_URL@
    }
}

/// The outcome of testing an audio address for a transcription.
pub open spec fn transcription_check_spec(matched: bool, r: Result<(), TranscribeError>) -> bool {
    if matched {
        r is Ok
    } else {
        r matches Err(TranscribeError::TranscriptionUrlError)
    }
}

/// An address that matched `AUDIO_URL_PATTERN` may be downloaded; any other
/// is refused with `AudioUrlError(INVALID_AUDIO_URL)`.
pub fn audio_url_verdict(matched: bool) -> (r: Result<(), TranscribeError>)
    ensures
        audio_check_spec(matched, r),
{
    if matched {
        Ok(())
    } else {
        let mut m = String::new();
        push_str(&mut m, INVALID_AUDIO_URL);
        Err(TranscribeError::AudioUrlError(m))
    }
}

/// An address that matched `AUDIO_URL_PATTERN` may be transcribed; any other
/// is refused with `TranscriptionUrlError`.
pub fn transcription_url_verdict(matched: bool) -> (r: Result<(), TranscribeError>)
    ensures
        transcription_check_spec(matched, r),
{
    if matched {
        Ok(())
    } else {
        Err(TranscribeError::TranscriptionUrlError)
    }
}

/// Tests `url` against `AUDIO_URL_PATTERN` before a download. `None` when the
/// pattern does not compile.
pub fn check_audio_url(url: &str) -> (r: Option<Result<(), TranscribeError>>)
    ensures
        match regex_match_result(AUDIO_URL_PATTERN@, url@) {
            Some(m) => r matches Some(v) && audio_check_spec(m, v),
            None => r is None,
        },
{
    match regex_is_match(AUDIO_URL_PATTERN, url) {
        Some(m) => Some(audio_url_verdict(m)),
        None => None,
    }
}

/// Tests `url` against `AUDIO_URL_PATTERN` before a transcription. `None`
/// when the pattern does not compile.
pub fn check_transcription_url(url: &str) -> (r: Option<Result<(), TranscribeError>>)
    ensures
        match regex_match_result(AUDIO_URL_PATTERN@, url@) {
            Some(m) => r matches Some(v) && transcription_check_spec(m, v),
            None => r is None,
        },
{
    match regex_is_match(AUDIO_URL_PATTERN, url) {
        Some(m) => Some(transcription_url_verdict(m)),
        None => None,
    }
}

/// The local path of the audio at `url`: its last path segment, in
/// `AUDIO_DIR`.
pub fn audio_file_path(url: &str) -> (r: String)
    ensures
        r@ == AUDIO_DIR@ + last_segment(url@, '/'),
{
    let mut s = String::new();
    push_str(&mut s, AUDIO_DIR);
    let name = last_segment_of(url, '/');
    push_str(&mut s, name.as_str());
    s
}

/// A downloaded file always lands directly in `AUDIO_DIR`: the part of its
/// path after the directory holds no `/`.
pub proof fn law_audio_file_stays_in_dir(url: Seq<char>)
    ensures
        !last_segment(url, '/').contains('/'),
        (AUDIO_DIR@ + last_segment(url, '/')).subrange(0, AUDIO_DIR@.len() as int) == AUDIO_DIR@,
{
    lemma_last_segment(url, '/');
    assert((AUDIO_DIR@ + last_segment(url, '/')).subrange(0, AUDIO_DIR@.len() as int) == AUDIO_DIR@);
}

} // verus!

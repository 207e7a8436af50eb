use voanews::app::impls::transcribe::{
    audio_file_path, audio_url_verdict, check_audio_url, check_transcription_url, TranscribeError,
};
use voanews::app::impls::translate::{
    new_translate_form, sign_text, signed_input, translate_form, translation_lines,
    TranslateResult,
};
use voanews::util::youdao_transcribe::{prepare_form, slice_count, transcription_file_path};

const AUDIO: &str =
    "https://av.voanews.com/clips/VEN/2024/06/01/20240601-100000-VEN119-program.mp3";

fn strings(v: &[&str]) -> Vec<String> {
    v.iter().map(|s| s.to_string()).collect()
}

fn pairs(v: &[(&str, &str)]) -> Vec<(String, String)> {
    v.iter().map(|(a, b)| (a.to_string(), b.to_string())).collect()
}

#[test]
fn audio_address_accepted() {
    assert!(matches!(check_audio_url(AUDIO), Some(Ok(()))));
    assert!(matches!(check_transcription_url(AUDIO), Some(Ok(()))));
}

#[test]
fn audio_address_refused() {
    for url in [
        "https://av.voanews.com/clips/VEN/2024/06/01/20240601-100000-VEN119-program.mp4",
        "https://av.voanews.com/clips/VEN/24/06/01/20240601-100000-VEN119-program.mp3",
        "https://evil.example.com/x.mp3",
        "",
    ] {
        match check_audio_url(url) {
            Some(Err(TranscribeError::AudioUrlError(m))) => assert_eq!(m, "Invalid Audio Url."),
            other => panic!("{url}: {other:?}"),
        }
        assert!(matches!(
            check_transcription_url(url),
            Some(Err(TranscribeError::TranscriptionUrlError))
        ));
    }
}

#[test]
fn verdict_without_regex() {
    assert!(audio_url_verdict(true).is_ok());
    assert!(matches!(audio_url_verdict(false), Err(TranscribeError::AudioUrlError(_))));
}

#[test]
fn audio_and_transcription_paths() {
    assert_eq!(
        audio_file_path(AUDIO),
        "./assets/newscasts/audios/20240601-100000-VEN119-program.mp3"
    );
    assert_eq!(
        transcription_file_path("./assets/newscasts/audios/20240601-100000-VEN119-program.mp3"),
        "./assets/newscasts/transcriptions/20240601-100000-VEN119-program.mp3"
    );
    assert_eq!(audio_file_path("../../etc/passwd"), "./assets/newscasts/audios/passwd");
}

#[test]
fn slice_counts_round_up() {
    assert_eq!(slice_count(0), 0);
    assert_eq!(slice_count(1), 1);
    assert_eq!(slice_count(10485760), 1);
    assert_eq!(slice_count(10485761), 2);
    assert_eq!(slice_count(u64::MAX), u64::MAX.div_ceil(10485760));
}

#[test]
fn prepare_form_fields() {
    let form = prepare_form("salt-1", "17", "APP", "SEC", "news.program.mp3", 10485761);
    assert_eq!(
        form,
        pairs(&[
            ("salt", "salt-1"),
            ("type", "1"),
            ("appKey", "APP"),
            ("sliceNum", "2"),
            ("name", "news.program.mp3"),
            ("fileSize", "10485761"),
            ("curtime", "17"),
            ("langType", "en"),
            ("sign", "cb7438aa1c127c5a1ab4aa535e7244a16a25d9d8fa50f922a8be9d690c17bd4a"),
            ("signType", "v4"),
            ("format", "mp3"),
        ])
    );
}

#[test]
fn short_query_signed_whole() {
    assert_eq!(signed_input("hello"), "hello");
    assert_eq!(signed_input("exactly twenty bytes"), "exactly twenty bytes");
}

#[test]
fn long_query_is_cut() {
    assert_eq!(signed_input("abcdefghijklmnopqrstuvwxyz"), "abcdefghij26qrstuvwxyz");
    assert_eq!(signed_input("a你好世界你好世界b"), "a你好世26好世界b");
}

#[test]
fn sign_text_concatenates() {
    assert_eq!(sign_text("K", "in", "S", 42, "Z"), "KinS42Z");
}

#[test]
fn translate_form_fields() {
    let form = translate_form("hello", "KEY", "SECRET", "SALT", 1700000000);
    assert_eq!(
        form,
        pairs(&[
            ("q", "hello"),
            ("from", "en"),
            ("to", "zh-CHS"),
            ("appKey", "KEY"),
            ("salt", "SALT"),
            ("sign", "06eb2c53780de7e3f395ea32b44454a08e982e35ea5ae2a2ebba5fe5ad445acf"),
            ("signType", "v3"),
            ("curtime", "1700000000"),
        ])
    );
    let long = translate_form("abcdefghijklmnopqrstuvwxyz", "KEY", "SECRET", "SALT", 0);
    assert_eq!(long[5].1, "8d465293c16950062fa010f017402cefb00cc176b8abba578aaf88a7c22c3c9d");
}

#[test]
fn fresh_salt_is_a_uuid() {
    let (salt, form) = new_translate_form("hi", "K", "S", 5);
    assert_eq!(salt.len(), 36);
    assert_eq!(salt.chars().nth(14), Some('4'));
    for (i, c) in salt.chars().enumerate() {
        if [8, 13, 18, 23].contains(&i) {
            assert_eq!(c, '-');
        } else {
            assert!(c.is_ascii_hexdigit() && !c.is_ascii_uppercase());
        }
    }
    assert_eq!(form[4], ("salt".to_string(), salt.clone()));
    let (other, _) = new_translate_form("hi", "K", "S", 5);
    assert_ne!(salt, other);
}

#[test]
fn word_translation_lines() {
    let r = TranslateResult {
        is_word: true,
        query: "good".to_string(),
        translation: strings(&["好", "良好"]),
        return_phrase: strings(&["good"]),
        explains: strings(&["adj. 好的", "n. 好处"]),
    };
    assert_eq!(translation_lines(r), strings(&["good", "好 / 良好", "adj. 好的\nn. 好处"]));
}

#[test]
fn sentence_translation_lines() {
    let r = TranslateResult {
        is_word: false,
        query: "How are you".to_string(),
        translation: strings(&["你好吗"]),
        return_phrase: Vec::new(),
        explains: Vec::new(),
    };
    assert_eq!(translation_lines(r), strings(&["How are you", "你好吗"]));
}

#[test]
fn secret_only_changes_the_sign() {
    let a = translate_form("hello", "KEY", "SECRET-ONE", "SALT", 1700000000);
    let b = translate_form("hello", "KEY", "SECRET-TWO", "SALT", 1700000000);
    assert_eq!(a.len(), b.len());
    for i in 0..a.len() {
        if i == 5 {
            assert_eq!(a[i].0, "sign");
            assert_ne!(a[i].1, b[i].1);
        } else {
            assert_eq!(a[i], b[i]);
        }
    }
    assert!(a.iter().all(|(_, v)| !v.contains("SECRET")));
}

//! Transcription with the Youdao audio API: where a transcription is cached,
//! and the signed form that announces an upload.
use vstd::prelude::*;

use crate::deps::{sha256_hex, sha256_hex_of};
use crate::text::{
    decimal, field, last_segment, last_segment_of, lemma_last_segment, pairs_view, push_str,
    u64_to_decimal,
};

verus! {

/// Where finished transcriptions are kept.
pub const TRANSCRIPTION_DIR: &'static str = "./assets/newscasts/transcriptions/";

/// The Youdao API address the upload announcement is posted to.
pub const PREPARE_API: &'static str = "http://openapi.youdao.com/api/audio/prepare";

/// The size of one uploaded slice: 10 MiB.
pub const SLICE_SIZE: u64 = 10485760;

/// The cached transcription of the audio file at `file_path`: the file's
/// name, in `TRANSCRIPTION_DIR`.
pub fn transcription_file_path(file_path: &str) -> (r: String)
    ensures
        r@ == TRANSCRIPTION_DIR@ + last_segment(file_path@, '/'),
{
    let mut s = String::new();
    push_str(&mut s, TRANSCRIPTION_DIR);
    let name = last_segment_of(file_path, '/');
    push_str(&mut s, name.as_str());
    s
}

/// The number of slices a file of `size` bytes is uploaded in: `size`
/// divided by `SLICE_SIZE`, rounded up.
pub open spec fn slice_count_spec(size: nat) -> nat {
    ((size + SLICE_SIZE - 1) / (SLICE_SIZE as int)) as nat
}

pub fn slice_count(size: u64) -> (r: u64)
    ensures
        r == slice_count_spec(size as nat),
{
    let q = size / SLICE_SIZE;
    if size % SLICE_SIZE == 0 {
        q
    } else {
        q + 1
    }
}

/// The slices cover the whole file, and none of them is left empty: `k`
/// slices hold at least `size` bytes, and `k - 1` slices hold fewer.
pub proof fn law_slices_cover_file(size: nat)
    ensures
        slice_count_spec(size) * SLICE_SIZE >= size,
        slice_count_spec(size) > 0 ==> (slice_count_spec(size) - 1) * SLICE_SIZE < size,
{
    let k = slice_count_spec(size);
    let s = SLICE_SIZE as int;
    vstd::arithmetic::div_mod::lemma_fundamental_div_mod(size + s - 1, s);
    let r = (size + s - 1) % s;
    assert(size + s - 1 == s * k + r);
    assert(0 <= r < s);
    assert(k * s >= size) by (nonlinear_arith)
        requires size + s - 1 == s * k + r, r < s, s > 0;
    assert(k > 0 ==> (k - 1) * s < size) by (nonlinear_arith)
        requires size + s - 1 == s * k + r, 0 <= r, s > 0;
}

/// A cached transcription always lies directly in `TRANSCRIPTION_DIR`.
pub proof fn law_transcription_stays_in_dir(file_path: Seq<char>)
    ensures
        !last_segment(file_path, '/').contains('/'),
{
    lemma_last_segment(file_path, '/');
}

/// The fields that announce the upload of `file_name` (`size` bytes), signed
/// with SHA-256 (`signType` v4); the audio format is the text after the last
/// `.` of the name.
pub open spec fn prepare_form_spec(
    salt: Seq<char>,
    curtime: Seq<char>,
    app_key: Seq<char>,
    secret: Seq<char>,
    file_name: Seq<char>,
    size: u64,
) -> Seq<(Seq<char>, Seq<char>)> {
    seq![
        ("salt"@, salt),
        ("type"@, "1"@),
        ("appKey"@, app_key),
        ("sliceNum"@, decimal(slice_count_spec(size as nat))),
        ("name"@, file_name),
        ("fileSize"@, decimal(size as nat)),
        ("curtime"@, curtime),
        ("langType"@, "en"@),
        ("sign"@, sha256_hex_of(app_key + salt + curtime + secret)),
        ("signType"@, "v4"@),
        ("format"@, last_segment(file_name, '.')),
    ]
}

pub fn prepare_form(
    salt: &str,
    curtime: &str,
    app_key: &str,
    secret: &str,
    file_name: &str,
    size: u64,
) -> (r: Vec<(String, String)>)
    ensures
        pairs_view(r@) == prepare_form_spec(salt@, curtime@, app_key@, secret@, file_name@, size),
{
    let slices = u64_to_decimal(slice_count(size));
    let bytes = u64_to_decimal(size);
    let mut text = String::new();
    push_str(&mut text, app_key);
    push_str(&mut text, salt);
    push_str(&mut text, curtime);
    push_str(&mut text, secret);
    let sign = sha256_hex(text.as_str());
    let format = last_segment_of(file_name, '.');
    let mut v: Vec<(String, String)> = Vec::new();
    v.push(field("salt", salt));
    v.push(field("type", "1"));
    v.push(field("appKey", app_key));
    v.push(field("sliceNum", slices.as_str()));
    v.push(field("name", file_name));
    v.push(field("fileSize", bytes.as_str()));
    v.push(field("curtime", curtime));
    v.push(field("langType", "en"));
    v.push(field("sign", sign.as_str()));
    v.push(field("signType", "v4"));
    v.push(field("format", format.as_str()));
    assert(pairs_view(v@) == prepare_form_spec(salt@, curtime@, app_key@, secret@, file_name@, size));
    v
}

} // verus!

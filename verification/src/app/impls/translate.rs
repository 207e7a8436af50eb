//! Translation with the Youdao text API: the signed request form, and the
//! lines shown for its answer.
use vstd::prelude::*;
use vstd::utf8::{decode_utf8, encode_utf8, is_char_boundary};

use crate::deps::{is_hyphenated_uuid, new_uuid_v4, sha256_hex, sha256_hex_of};
use crate::text::{
    decimal, field, join, join_spec, law_join_keeps_every_part, lemma_encode_utf8_concat, occurs_in, pairs_view, push_decimal, push_str,
    u64_to_decimal, views,
};

verus! {

/// Why a translation could not be had.
#[derive(Debug)]
pub enum TranslateError {
    ResponseError(String),
    ParseBodyError(String),
}

/// The Youdao API address the form is posted to.
pub const TRANSLATE_API: &'static str = "https://openapi.youdao.com/api";

/// The part of the query that goes into the signature, in bytes: a query of
/// at most 20 bytes is used whole; a longer one is cut to its first 10
/// bytes, its length in decimal and its last 10 bytes.
pub open spec fn signed_input_bytes(q: Seq<u8>) -> Seq<u8> {
    if q.len() <= 20 {
        q
    } else {
        q.subrange(0, 10) + encode_utf8(decimal(q.len())) + q.subrange(q.len() - 10, q.len() as int)
    }
}

/// The same part as text.
pub open spec fn signed_input_spec(q: Seq<char>) -> Seq<char> {
    decode_utf8(signed_input_bytes(encode_utf8(q)))
}

/// The queries that can be cut: short ones, and long ones whose 10th byte
/// from either end starts a character (`str::split_at` panics elsewhere).
pub open spec fn can_cut(q: &str) -> bool {
    encode_utf8(q@).len() <= 20 || (is_char_boundary(encode_utf8(q@), 10) && is_char_boundary(
        encode_utf8(q@),
        encode_utf8(q@).len() - 10,
    ))
}

/// The part of `q` that goes into the signature.
pub fn signed_input(q: &str) -> (r: String)
    requires
        can_cut(q),
    ensures
        encode_utf8(r@) == signed_input_bytes(encode_utf8(q@)),
        r@ == signed_input_spec(q@),
        encode_utf8(q@).len() <= 20 ==> r@ == q@,
{
    broadcast use vstd::utf8::encode_utf8_decode_utf8;

    let n = q.as_bytes().len();
    let mut s = String::new();
    if n <= 20 {
        push_str(&mut s, q);
    } else {
        let (head, _) = q.split_at(10);
        let (_, tail) = q.split_at(n - 10);
        push_str(&mut s, head);
        push_decimal(&mut s, n as u64);
        push_str(&mut s, tail);
        proof {
            lemma_encode_utf8_concat(head@, decimal(n as nat));
            lemma_encode_utf8_concat(head@ + decimal(n as nat), tail@);
        }
    }
    s
}

/// The text that is hashed for the signature.
pub open spec fn sign_text_spec(
    app_key: Seq<char>,
    input: Seq<char>,
    salt: Seq<char>,
    curtime: u64,
    secret: Seq<char>,
) -> Seq<char> {
    app_key + input + salt + decimal(curtime as nat) + secret
}

pub fn sign_text(app_key: &str, input: &str, salt: &str, curtime: u64, secret: &str) -> (r: String)
    ensures
        r@ == sign_text_spec(app_key@, input@, salt@, curtime, secret@),
{
    let mut s = String::new();
    push_str(&mut s, app_key);
    push_str(&mut s, input);
    push_str(&mut s, salt);
    push_decimal(&mut s, curtime);
    push_str(&mut s, secret);
    s
}

/// The fields of the translation request for query `q`, from English to
/// simplified Chinese, signed with SHA-256 (`signType` v3).
pub open spec fn translate_form_spec(
    q: Seq<char>,
    app_key: Seq<char>,
    secret: Seq<char>,
    salt: Seq<char>,
    curtime: u64,
) -> Seq<(Seq<char>, Seq<char>)> {
    seq![
        ("q"@, q),
        ("from"@, "en"@),
        ("to"@, "zh-CHS"@),
        ("appKey"@, app_key),
        ("salt"@, salt),
        ("sign"@, sha256_hex_of(sign_text_spec(app_key, signed_input_spec(q), salt, curtime, secret))),
        ("signType"@, "v3"@),
        ("curtime"@, decimal(curtime as nat)),
    ]
}

/// The translation request form for `q`, with the given salt and time.
pub fn translate_form(q: &str, app_key: &str, secret: &str, salt: &str, curtime: u64) -> (r: Vec<
    (String, String),
>)
    requires
        can_cut(q),
    ensures
        pairs_view(r@) == translate_form_spec(q@, app_key@, secret@, salt@, curtime),
{
    let input = signed_input(q);
    let text = sign_text(app_key, input.as_str(), salt, curtime, secret);
    let sign = sha256_hex(text.as_str());
    let time = u64_to_decimal(curtime);
    let mut v: Vec<(String, String)> = Vec::new();
    v.push(field("q", q));
    v.push(field("from", "en"));
    v.push(field("to", "zh-CHS"));
    v.push(field("appKey", app_key));
    v.push(field("salt", salt));
    v.push(field("sign", sign.as_str()));
    v.push(field("signType", "v3"));
    v.push(field("curtime", time.as_str()));
    assert(pairs_view(v@) == translate_form_spec(q@, app_key@, secret@, salt@, curtime));
    v
}

/// A translation request form for `q` with a fresh random salt; the salt is
/// given back with the form.
pub fn new_translate_form(q: &str, app_key: &str, secret: &str, curtime: u64) -> (r: (
    String,
    Vec<(String, String)>,
))
    requires
        can_cut(q),
    ensures
        is_hyphenated_uuid(r.0@),
        pairs_view(r.1@) == translate_form_spec(q@, app_key@, secret@, r.0@, curtime),
{
    let salt = new_uuid_v4();
    let form = translate_form(q, app_key, secret, salt.as_str(), curtime);
    (salt, form)
}

/// The parts of the API's answer that are shown.
pub struct TranslateResult {
    pub is_word: bool,
    pub query: String,
    pub translation: Vec<String>,
    pub return_phrase: Vec<String>,
    pub explains: Vec<String>,
}

/// The lines shown for an answer: for a single word its phrase, its
/// translations and its explanations; for anything else the query and its
/// translations.
pub open spec fn translation_lines_spec(r: TranslateResult) -> Seq<Seq<char>> {
    if r.is_word {
        seq![
            join_spec(views(r.return_phrase@), " / "@),
            join_spec(views(r.translation@), " / "@),
            join_spec(views(r.explains@), "\n"@),
        ]
    } else {
        seq![r.query@, join_spec(views(r.translation@), " / "@)]
    }
}

pub fn translation_lines(r: TranslateResult) -> (lines: Vec<String>)
    ensures
        views(lines@) == translation_lines_spec(r),
{
    let mut lines: Vec<String> = Vec::new();
    if r.is_word {
        lines.push(join(&r.return_phrase, " / "));
        lines.push(join(&r.translation, " / "));
        lines.push(join(&r.explains, "\n"));
    } else {
        let t = join(&r.translation, " / ");
        lines.push(r.query);
        lines.push(t);
    }
    assert(views(lines@) == translation_lines_spec(r));
    lines
}

/// A word is shown on three lines (phrase, translations, explanations), any
/// other query on two (the query and its translations).
pub proof fn law_translation_line_count(r: TranslateResult)
    ensures
        translation_lines_spec(r).len() == if r.is_word {
            3nat
        } else {
            2nat
        },
        !r.is_word ==> translation_lines_spec(r)[0] == r.query@,
{
}

/// The secret reaches the request only through the signature: two forms for
/// the same query, key, salt and time whose secrets differ agree on every
/// field except `sign`.
pub proof fn law_secret_only_in_sign(
    q: Seq<char>,
    app_key: Seq<char>,
    secret1: Seq<char>,
    secret2: Seq<char>,
    salt: Seq<char>,
    curtime: u64,
)
    ensures
        ({
            let f1 = translate_form_spec(q, app_key, secret1, salt, curtime);
            let f2 = translate_form_spec(q, app_key, secret2, salt, curtime);
            &&& f1.len() == f2.len()
            &&& f1[5].0 == "sign"@ && f2[5].0 == "sign"@
            &&& forall|i: int| 0 <= i < f1.len() && i != 5 ==> f1[i] == f2[i]
        }),
{
}

/// The query is sent as given, whatever its length: the first field of the
/// form is `q` with the query itself, not the cut text that is signed.
pub proof fn law_query_sent_as_given(
    q: Seq<char>,
    app_key: Seq<char>,
    secret: Seq<char>,
    salt: Seq<char>,
    curtime: u64,
)
    ensures
        translate_form_spec(q, app_key, secret, salt, curtime).len() == 8,
        translate_form_spec(q, app_key, secret, salt, curtime)[0] == ("q"@, q),
        forall|i: int|
            1 <= i < 8 ==> (#[trigger] translate_form_spec(q, app_key, secret, salt, curtime)[i]).0
                != "q"@,
{
    reveal_strlit("q");
    reveal_strlit("from");
    reveal_strlit("to");
    reveal_strlit("appKey");
    reveal_strlit("salt");
    reveal_strlit("sign");
    reveal_strlit("signType");
    reveal_strlit("curtime");
    let f = translate_form_spec(q, app_key, secret, salt, curtime);
    assert forall|i: int| 1 <= i < 8 implies (#[trigger] f[i]).0 != "q"@ by {
        assert(f[i].0.len() != "q"@.len());
    }
}

/// No translation and no explanation is lost: every translation occurs in
/// the second line shown; for a word every returned phrase occurs in the
/// first line and every explanation in the third; for anything else the
/// first line is the query itself.
pub proof fn law_every_translation_shown(r: TranslateResult)
    ensures
        forall|k: int|
            0 <= k < r.translation@.len() ==> occurs_in(
                #[trigger] r.translation@[k]@,
                translation_lines_spec(r)[1],
            ),
        r.is_word ==> forall|k: int|
            0 <= k < r.return_phrase@.len() ==> occurs_in(
                #[trigger] r.return_phrase@[k]@,
                translation_lines_spec(r)[0],
            ),
        r.is_word ==> forall|k: int|
            0 <= k < r.explains@.len() ==> occurs_in(
                #[trigger] r.explains@[k]@,
                translation_lines_spec(r)[2],
            ),
        !r.is_word ==> translation_lines_spec(r)[0] == r.query@,
{
    assert forall|k: int| 0 <= k < r.translation@.len() implies occurs_in(
        #[trigger] r.translation@[k]@,
        translation_lines_spec(r)[1],
    ) by {
        law_join_keeps_every_part(views(r.translation@), " / "@, k);
    }
    assert forall|k: int| r.is_word && 0 <= k < r.return_phrase@.len() implies occurs_in(
        #[trigger] r.return_phrase@[k]@,
        translation_lines_spec(r)[0],
    ) by {
        law_join_keeps_every_part(views(r.return_phrase@), " / "@, k);
    }
    assert forall|k: int| r.is_word && 0 <= k < r.explains@.len() implies occurs_in(
        #[trigger] r.explains@[k]@,
        translation_lines_spec(r)[2],
    ) by {
        law_join_keeps_every_part(views(r.explains@), "\n"@, k);
    }
}

/// A query of at most 20 bytes is signed whole.
pub proof fn law_short_query_signed_whole(q: Seq<char>)
    requires
        encode_utf8(q).len() <= 20,
    ensures
        signed_input_spec(q) == q,
{
    vstd::utf8::encode_utf8_decode_utf8(q);
}

} // verus!

//! Article pages: where an article is read from, and the rows its page
//! becomes.
use vstd::prelude::*;

use crate::app::main::{make_row, row_view, rows_view, Row};
use crate::deps::{
    attr, base64_digit, base64_spec, base64_standard, css_selector_parses, html_attr, html_inner_html,
    html_match_count, html_tag_name, inner_html, opt_view, parse_document, step, tag_name, Document,
    Path,
};
use vstd::utf8::encode_utf8;
use crate::my_trait::query::Query;
use crate::text::{
    all_whitespace, law_trim_ignores_surrounding_whitespace, i32_to_decimal, push_str, same_text, signed_decimal, trim, trim_spec};

verus! {

/// Why an article page could not be read.
#[derive(Debug)]
pub enum ParsePsError {
    ResponseError(String),
    BodyError(String),
}

pub const ARTICLE_URL_PREFIX: &'static str = "https://www.voanews.com/a/";

pub const ARTICLE_URL_SUFFIX: &'static str = ".html";

/// The headline of the pages that carry the newscast audio.
pub const NEWSCAST_TITLE: &'static str = "VOA Newscasts";

pub const AUDIO_SOURCE_PREFIX: &'static str = r#"<source src="https://voanews.jtp0415.top/api/transcribe/audio?url=$"#;

pub const AUDIO_SOURCE_SUFFIX: &'static str = r#"" type="audio/mpeg">"#;

/// The address of the article with id `id`.
pub fn article_url(id: i32) -> (r: String)
    ensures
        r@ == ARTICLE_URL_PREFIX@ + signed_decimal(id as int) + ARTICLE_URL_SUFFIX@,
{
    let mut s = String::new();
    push_str(&mut s, ARTICLE_URL_PREFIX);
    let n = i32_to_decimal(id);
    push_str(&mut s, n.as_str());
    push_str(&mut s, ARTICLE_URL_SUFFIX);
    s
}

/// The audio element content for a newscast whose audio address, Base64
/// encoded, is `encoded`.
pub open spec fn audio_source_spec(encoded: Seq<char>) -> Seq<char> {
    AUDIO_SOURCE_PREFIX@ + encoded + AUDIO_SOURCE_SUFFIX@
}

pub fn audio_source_tag(encoded: &str) -> (r: String)
    ensures
        r@ == audio_source_spec(encoded@),
{
    let mut s = String::new();
    push_str(&mut s, AUDIO_SOURCE_PREFIX);
    push_str(&mut s, encoded);
    push_str(&mut s, AUDIO_SOURCE_SUFFIX);
    s
}

/// The rows of a newscast page: its headline, its date and its audio.
pub open spec fn newscast_rows_spec(title: Seq<char>, time: Seq<char>, encoded: Seq<char>) -> Seq<
    (Seq<char>, Seq<char>),
> {
    seq![("h1"@, title), ("div"@, time), ("video"@, audio_source_spec(encoded))]
}

/// The rows of an article page: its headline, its date, then its paragraphs.
pub open spec fn article_rows_spec(
    title: Seq<char>,
    time: Seq<char>,
    paragraphs: Seq<(Seq<char>, Seq<char>)>,
) -> Seq<(Seq<char>, Seq<char>)> {
    seq![("h1"@, title), ("div"@, time)] + paragraphs
}

pub fn newscast_rows(title: &str, time: &str, encoded: &str) -> (r: Vec<Row>)
    ensures
        rows_view(r@) == newscast_rows_spec(title@, time@, encoded@),
{
    let mut rows: Vec<Row> = Vec::new();
    rows.push(make_row("h1", title));
    rows.push(make_row("div", time));
    let tag = audio_source_tag(encoded);
    rows.push(make_row("video", tag.as_str()));
    assert(rows_view(rows@) == newscast_rows_spec(title@, time@, encoded@));
    rows
}

pub fn article_rows(title: &str, time: &str, paragraphs: Vec<Row>) -> (r: Vec<Row>)
    ensures
        rows_view(r@) == article_rows_spec(title@, time@, rows_view(paragraphs@)),
{
    let mut rows: Vec<Row> = Vec::new();
    rows.push(make_row("h1", title));
    rows.push(make_row("div", time));
    let ghost head = rows@;
    let ghost paras = paragraphs@;
    let mut paragraphs = paragraphs;
    rows.append(&mut paragraphs);
    assert(rows@ == head + paras);
    assert(rows_view(rows@) == rows_view(head) + rows_view(paras));
    assert(rows_view(head) == seq![("h1"@, title@), ("div"@, time@)]);
    rows
}

/// Whether `selector` parses and has a match under `path` of the page.
pub open spec fn has_first(html: Seq<char>, path: Path, selector: Seq<char>) -> bool {
    css_selector_parses(selector) && html_match_count(html, path, selector) > 0
}

pub open spec fn h1_path() -> Path {
    step(Seq::empty(), "h1"@, 0)
}

pub open spec fn time_path() -> Path {
    step(Seq::empty(), "time"@, 0)
}

pub open spec fn player_path() -> Path {
    step(Seq::empty(), ".c-mmp"@, 0)
}

pub open spec fn player_link_path() -> Path {
    step(player_path(), "a"@, 0)
}

pub open spec fn content_path() -> Path {
    step(Seq::empty(), "#article-content"@, 0)
}

/// The paragraphs of the page's first `#article-content` element: for each
/// of its `p` elements in order, the tag name and the inner HTML.
pub open spec fn paragraphs_spec(html: Seq<char>) -> Seq<(Seq<char>, Seq<char>)> {
    Seq::new(
        html_match_count(html, content_path(), "p"@),
        |i: int|
            (
                html_tag_name(html, step(content_path(), "p"@, i)),
                html_inner_html(html, step(content_path(), "p"@, i)),
            ),
    )
}

/// The rows of the article page whose HTML text is `html`: the first `h1`
/// and the first `time` (both trimmed), then for a newscast (headline
/// `NEWSCAST_TITLE`) the audio address from the first link of the first
/// `.c-mmp` element, Base64 encoded, and for any other page the paragraphs of
/// the first `#article-content` element. `None` where one of these parts is
/// missing or a selector does not parse.
pub open spec fn page_rows_spec(html: Seq<char>) -> Option<Seq<(Seq<char>, Seq<char>)>> {
    let root: Path = Seq::empty();
    if !(has_first(html, root, "h1"@) && has_first(html, root, "time"@)) {
        None
    } else {
        let title = trim_spec(html_inner_html(html, h1_path()));
        let time = trim_spec(html_inner_html(html, time_path()));
        if title == NEWSCAST_TITLE@ {
            if has_first(html, root, ".c-mmp"@) && has_first(html, player_path(), "a"@) {
                match html_attr(html, player_link_path(), "href"@) {
                    Some(href) => if encode_utf8(href).len() <= usize::MAX / 4 {
                        Some(newscast_rows_spec(title, time, base64_spec(encode_utf8(href))))
                    } else {
                        None
                    },
                    None => None,
                }
            } else {
                None
            }
        } else if has_first(html, root, "#article-content"@) && css_selector_parses("p"@) {
            Some(article_rows_spec(title, time, paragraphs_spec(html)))
        } else {
            None
        }
    }
}

/// Two pages that differ only in whitespace around the text of their first
/// `h1` give the same rows: the headline is trimmed before it is compared and
/// shown. The pages must agree on everything else the rows are read from:
/// which elements match, their attributes and tag names, and the inner HTML
/// of the first `time` and of each paragraph.
pub proof fn law_headline_whitespace_ignored(
    html1: Seq<char>,
    html2: Seq<char>,
    w1: Seq<char>,
    w2: Seq<char>,
)
    requires
        all_whitespace(w1),
        all_whitespace(w2),
        forall|p: Path, s: Seq<char>|
            #[trigger] html_match_count(html1, p, s) == html_match_count(html2, p, s),
        forall|p: Path, n: Seq<char>| #[trigger] html_attr(html1, p, n) == html_attr(html2, p, n),
        forall|p: Path| #[trigger] html_tag_name(html1, p) == html_tag_name(html2, p),
        html_inner_html(html1, time_path()) == html_inner_html(html2, time_path()),
        forall|i: int|
            #[trigger] html_inner_html(html1, step(content_path(), "p"@, i)) == html_inner_html(
                html2,
                step(content_path(), "p"@, i),
            ),
        html_inner_html(html2, h1_path()) == w1 + html_inner_html(html1, h1_path()) + w2,
    ensures
        page_rows_spec(html1) == page_rows_spec(html2),
{
    law_trim_ignores_surrounding_whitespace(w1, html_inner_html(html1, h1_path()), w2);
    assert(paragraphs_spec(html1) =~= paragraphs_spec(html2)) by {
        assert forall|i: int|
            0 <= i < paragraphs_spec(html1).len() implies paragraphs_spec(html1)[i]
            == paragraphs_spec(html2)[i] by {
            assert(html_inner_html(html1, step(content_path(), "p"@, i)) == html_inner_html(
                html2,
                step(content_path(), "p"@, i),
            ));
        }
    }
}

/// The code of each Base64 digit: `A`–`Z`, `a`–`z`, `0`–`9`, `+`, `/`.
proof fn lemma_base64_digit_code(v: int)
    requires
        0 <= v < 64,
    ensures
        base64_digit(v) as int == if v < 26 {
            65 + v
        } else if v < 52 {
            71 + v
        } else if v < 62 {
            v - 4
        } else if v == 62 {
            43
        } else {
            47
        },
{
    if v < 26 {
        assert(((65 + v) as char) as int == 65 + v);
    } else if v < 52 {
        assert(((97 + v - 26) as char) as int == 71 + v);
    } else if v < 62 {
        assert(((48 + v - 52) as char) as int == v - 4);
    }
}

/// Different 6-bit values have different digits, and no digit is `=`.
proof fn lemma_base64_digit_injective(v: int, w: int)
    requires
        0 <= v < 64,
        0 <= w < 64,
    ensures
        base64_digit(v) == base64_digit(w) ==> v == w,
        base64_digit(v) != '=',
{
    lemma_base64_digit_code(v);
    lemma_base64_digit_code(w);
    if base64_digit(v) == base64_digit(w) {
        assert(base64_digit(v) as int == base64_digit(w) as int);
    }
}

/// The first four characters of the encoding of at least three bytes.
proof fn lemma_base64_group(a: Seq<u8>, b: Seq<u8>)
    requires
        a.len() >= 3,
        b.len() >= 3,
        base64_spec(a).take(4) == base64_spec(b).take(4),
    ensures
        a.take(3) == b.take(3),
{
    let (x, y, z) = (a[0] as int, a[1] as int, a[2] as int);
    let (p, q, r) = (b[0] as int, b[1] as int, b[2] as int);
    let ea = base64_spec(a);
    let eb = base64_spec(b);
    assert(ea[0] == eb[0] && ea[1] == eb[1] && ea[2] == eb[2] && ea[3] == eb[3]) by {
        assert(ea.take(4)[0] == eb.take(4)[0]);
        assert(ea.take(4)[1] == eb.take(4)[1]);
        assert(ea.take(4)[2] == eb.take(4)[2]);
        assert(ea.take(4)[3] == eb.take(4)[3]);
    }
    lemma_base64_digit_injective(x / 4, p / 4);
    lemma_base64_digit_injective((x % 4) * 16 + y / 16, (p % 4) * 16 + q / 16);
    lemma_base64_digit_injective((y % 16) * 4 + z / 64, (q % 16) * 4 + r / 64);
    lemma_base64_digit_injective(z % 64, r % 64);
    assert(x == p && y == q && z == r) by (nonlinear_arith)
        requires
            0 <= x < 256,
            0 <= y < 256,
            0 <= z < 256,
            0 <= p < 256,
            0 <= q < 256,
            0 <= r < 256,
            x / 4 == p / 4,
            (x % 4) * 16 + y / 16 == (p % 4) * 16 + q / 16,
            (y % 16) * 4 + z / 64 == (q % 16) * 4 + r / 64,
            z % 64 == r % 64,
    ;
    assert(a.take(3) =~= b.take(3));
}

/// Base64 loses nothing: two byte strings with the same encoding are the
/// same.
pub proof fn law_base64_injective(a: Seq<u8>, b: Seq<u8>)
    requires
        base64_spec(a) == base64_spec(b),
    ensures
        a == b,
    decreases a.len(),
{
    let ea = base64_spec(a);
    let eb = base64_spec(b);
    if a.len() == 0 || b.len() == 0 {
        if a.len() > 0 {
            assert(ea.len() >= 4);
        }
        if b.len() > 0 {
            assert(eb.len() >= 4);
        }
        assert(a.len() == 0 && b.len() == 0);
        assert(a =~= b);
        return;
    }
    let (x, p) = (a[0] as int, b[0] as int);
    // The third and fourth characters are padding exactly for the short last
    // groups, so both strings have a last group of the same size.
    if a.len() >= 2 {
        let v = (a[1] as int % 16) * 4 + if a.len() >= 3 {
            a[2] as int / 64
        } else {
            0
        };
        lemma_base64_digit_injective(v, v);
    }
    if b.len() >= 2 {
        let v = (b[1] as int % 16) * 4 + if b.len() >= 3 {
            b[2] as int / 64
        } else {
            0
        };
        lemma_base64_digit_injective(v, v);
    }
    if a.len() >= 3 {
        lemma_base64_digit_injective(a[2] as int % 64, a[2] as int % 64);
    }
    if b.len() >= 3 {
        lemma_base64_digit_injective(b[2] as int % 64, b[2] as int % 64);
    }
    assert(ea[2] == eb[2] && ea[3] == eb[3]);
    if a.len() == 1 {
        assert(b.len() == 1);
        lemma_base64_digit_injective(x / 4, p / 4);
        assert(x == p) by (nonlinear_arith)
            requires
                0 <= x < 256,
                0 <= p < 256,
                x / 4 == p / 4,
                (x % 4) * 16 == (p % 4) * 16,
        {
        }
        assert(a =~= b);
    } else if a.len() == 2 {
        assert(b.len() == 2);
        let (y, q) = (a[1] as int, b[1] as int);
        lemma_base64_digit_injective((x % 4) * 16 + y / 16, (p % 4) * 16 + q / 16);
        lemma_base64_digit_injective((y % 16) * 4, (q % 16) * 4);
        assert(x == p && y == q) by (nonlinear_arith)
            requires
                0 <= x < 256,
                0 <= y < 256,
                0 <= p < 256,
                0 <= q < 256,
                x / 4 == p / 4,
                (x % 4) * 16 + y / 16 == (p % 4) * 16 + q / 16,
                (y % 16) * 4 == (q % 16) * 4,
        {
        }
        assert(a =~= b);
    } else {
        assert(b.len() >= 3);
        assert(ea.take(4) == eb.take(4));
        lemma_base64_group(a, b);
        assert(ea.skip(4) == base64_spec(a.skip(3)));
        assert(eb.skip(4) == base64_spec(b.skip(3)));
        law_base64_injective(a.skip(3), b.skip(3));
        assert(a =~= a.take(3) + a.skip(3));
        assert(b =~= b.take(3) + b.skip(3));
    }
}

/// The audio row carries the page's link losslessly: two links that give the
/// same audio row are the same link.
pub proof fn law_audio_row_determines_link(h1: Seq<char>, h2: Seq<char>)
    requires
        audio_source_spec(base64_spec(encode_utf8(h1))) == audio_source_spec(
            base64_spec(encode_utf8(h2)),
        ),
    ensures
        h1 == h2,
{
    let e1 = base64_spec(encode_utf8(h1));
    let e2 = base64_spec(encode_utf8(h2));
    let full = audio_source_spec(e1);
    let n = AUDIO_SOURCE_PREFIX@.len() as int;
    let m = AUDIO_SOURCE_SUFFIX@.len() as int;
    assert(full.len() == n + e1.len() + m);
    assert(audio_source_spec(e2).len() == n + e2.len() + m);
    assert(e1 =~= full.subrange(n, n + e1.len()));
    assert(e2 =~= audio_source_spec(e2).subrange(n, n + e2.len()));
    law_base64_injective(encode_utf8(h1), encode_utf8(h2));
    vstd::utf8::encode_utf8_decode_utf8(h1);
    vstd::utf8::encode_utf8_decode_utf8(h2);
}

/// The rows of the article page whose HTML text is `html`, as
/// `page_rows_spec` describes them.
pub fn page_rows(html: &str) -> (r: Option<Vec<Row>>)
    ensures
        match page_rows_spec(html@) {
            None => r is None,
            Some(rows) => r matches Some(v) && rows_view(v@) == rows,
        },
{
    let doc = parse_document(html);
    let h1 = match doc.query_selector("h1") {
        Some(e) => e,
        None => return None,
    };
    let title_html = inner_html(&h1);
    let title = trim(title_html.as_str());
    let time_el = match doc.query_selector("time") {
        Some(e) => e,
        None => return None,
    };
    let time_html = inner_html(&time_el);
    let time = trim(time_html.as_str());
    assert(title_html@ == html_inner_html(html@, h1_path()));
    assert(time_html@ == html_inner_html(html@, time_path()));
    if same_text(title.as_str(), NEWSCAST_TITLE) {
        let href = match media_href(&doc) {
            Some(h) => h,
            None => return None,
        };
        let bytes = href.as_str().as_bytes();
        if bytes.len() > usize::MAX / 4 {
            return None;
        }
        let encoded = base64_standard(bytes);
        Some(newscast_rows(title.as_str(), time.as_str(), encoded.as_str()))
    } else {
        let paragraphs = match article_paragraphs(&doc) {
            Some(p) => p,
            None => return None,
        };
        Some(article_rows(title.as_str(), time.as_str(), paragraphs))
    }
}

/// The `href` of the first link in the page's first `.c-mmp` element.
fn media_href(doc: &Document) -> (r: Option<String>)
    ensures
        if has_first(doc@, Seq::empty(), ".c-mmp"@) && has_first(doc@, player_path(), "a"@) {
            opt_view(r) == html_attr(doc@, player_link_path(), "href"@)
        } else {
            r is None
        },
{
    let player = match doc.query_selector(".c-mmp") {
        Some(e) => e,
        None => return None,
    };
    let link = match player.query_selector("a") {
        Some(e) => e,
        None => return None,
    };
    attr(&link, "href")
}

/// Every `p` of the page's first `#article-content` element, as a row of its
/// tag name and inner HTML.
fn article_paragraphs(doc: &Document) -> (r: Option<Vec<Row>>)
    ensures
        if has_first(doc@, Seq::empty(), "#article-content"@) && css_selector_parses("p"@) {
            r matches Some(v) && rows_view(v@) == paragraphs_spec(doc@)
        } else {
            r is None
        },
{
    let content = match doc.query_selector("#article-content") {
        Some(e) => e,
        None => return None,
    };
    let found = match content.query_selector_all("p") {
        Some(v) => v,
        None => return None,
    };
    let ghost html = doc@;
    let mut rows: Vec<Row> = Vec::new();
    let mut i: usize = 0;
    while i < found.len()
        invariant
            i <= found@.len(),
            found@.len() == html_match_count(html, content_path(), "p"@),
            forall|k: int|
                0 <= k < found@.len() ==> #[trigger] found@[k]@ == (
                    html,
                    step(content_path(), "p"@, k),
                ),
            rows_view(rows@) == paragraphs_spec(html).take(i as int),
        decreases found.len() - i,
    {
        let p = &found[i];
        let name = tag_name(p);
        let inner = inner_html(p);
        let row: Row = [name, inner];
        rows.push(row);
        assert(paragraphs_spec(html).take(i + 1) == paragraphs_spec(html).take(i as int).push(
            row_view(row),
        ));
        assert(rows_view(rows@) == rows_view(rows@.drop_last()).push(row_view(row)));
        i += 1;
    }
    assert(paragraphs_spec(html).take(i as int) == paragraphs_spec(html));
    Some(rows)
}

/// On a newscast page (first `h1` reading `NEWSCAST_TITLE`, with a `time`),
/// the audio row is the Base64 form of the `href` of the first `a` inside the
/// page's first `.c-mmp` player, and the rows are the headline, the trimmed
/// time and that audio row: links elsewhere on the page never reach them.
pub proof fn law_audio_row_from_player_link(html: Seq<char>, h: Seq<char>)
    requires
        css_selector_parses("h1"@),
        css_selector_parses("time"@),
        css_selector_parses(".c-mmp"@),
        css_selector_parses("a"@),
        html_match_count(html, Seq::empty(), "h1"@) > 0,
        html_match_count(html, Seq::empty(), "time"@) > 0,
        trim_spec(html_inner_html(html, step(Seq::empty(), "h1"@, 0))) == NEWSCAST_TITLE@,
        html_match_count(html, Seq::empty(), ".c-mmp"@) > 0,
        html_match_count(html, step(Seq::empty(), ".c-mmp"@, 0), "a"@) > 0,
        html_attr(html, step(step(Seq::empty(), ".c-mmp"@, 0), "a"@, 0), "href"@) == Some(h),
        encode_utf8(h).len() <= usize::MAX / 4,
    ensures
        page_rows_spec(html) matches Some(rows) && rows.len() == 3 && rows[0] == (
            "h1"@,
            NEWSCAST_TITLE@,
        ) && rows[1] == ("div"@, trim_spec(html_inner_html(html, step(Seq::empty(), "time"@, 0))))
            && rows[2] == ("video"@, audio_source_spec(base64_spec(encode_utf8(h)))),
{
}

} // verus!

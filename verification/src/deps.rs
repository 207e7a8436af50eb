//! Calls into the crates this library builds on: `regex`, `sha256`, `base64`,
//! `uuid` and `scraper`. Each function here makes one call; its contract is
//! taken on trust and says no more than the crate's source shows.
use vstd::prelude::*;

use base64::Engine;
use scraper::{ElementRef, Html, Selector};

verus! {

// ---------------------------------------------------------------------------
// regex
// ---------------------------------------------------------------------------

/// What `regex::Regex::new(pattern)` followed by `is_match(haystack)` gives:
/// `None` when the pattern does not compile, else whether it matches.
pub uninterp spec fn regex_match_result(pattern: Seq<char>, haystack: Seq<char>) -> Option<bool>;

/// What `regex::Regex::new(pattern)` followed by `captures(haystack)` and
/// `get(group)` gives: `None` when the pattern does not compile, `Some(None)`
/// when there is no match or the group took no part in it, else the text of
/// the group.
pub uninterp spec fn regex_capture_result(
    pattern: Seq<char>,
    haystack: Seq<char>,
    group: nat,
) -> Option<Option<Seq<char>>>;

/// Compiles `pattern` with `regex::Regex::new` and tests `haystack` with
/// `Regex::is_match`. Claimed: the result is a function of the two texts
/// alone (`regex_match_result`); nothing is said of which texts match.
#[verifier::external_body]
pub(crate) fn regex_is_match(pattern: &str, haystack: &str) -> (r: Option<bool>)
    ensures
        r == regex_match_result(pattern@, haystack@),
{
    match regex::Regex::new(pattern) {
        Ok(re) => Some(re.is_match(haystack)),
        Err(_) => None,
    }
}

/// Compiles `pattern` with `regex::Regex::new`, runs `Regex::captures` on
/// `haystack` and reads group `group` with `Captures::get`. Claimed: the
/// result is a function of its arguments alone (`regex_capture_result`).
#[verifier::external_body]
pub(crate) fn regex_capture(pattern: &str, haystack: &str, group: usize) -> (r: Option<Option<String>>)
    ensures
        r matches Some(Some(s)) ==> regex_capture_result(pattern@, haystack@, group as nat)
            == Some(Some(s@)),
        r matches Some(None) ==> regex_capture_result(pattern@, haystack@, group as nat) == Some(
            None::<Seq<char>>,
        ),
        r is None ==> regex_capture_result(pattern@, haystack@, group as nat) is None,
{
    let re = match regex::Regex::new(pattern) {
        Ok(re) => re,
        Err(_) => return None,
    };
    let caps = match re.captures(haystack) {
        Some(caps) => caps,
        None => return Some(None),
    };
    match caps.get(group) {
        Some(m) => Some(Some(m.as_str().to_string())),
        None => Some(None),
    }
}

// ---------------------------------------------------------------------------
// sha256
// ---------------------------------------------------------------------------

/// The SHA-256 digest of the UTF-8 bytes of a text, in lower-case hex.
pub uninterp spec fn sha256_hex_of(input: Seq<char>) -> Seq<char>;

pub open spec fn is_lower_hex_digit(c: char) -> bool {
    ('0' <= c <= '9') || ('a' <= c <= 'f')
}

/// `sha256::digest` on a text: `hex::encode` of the 32-byte SHA-256 digest of
/// its UTF-8 bytes. Claimed: the result is a function of the text, and is 64
/// lower-case hex digits (two per digest byte).
#[verifier::external_body]
pub(crate) fn sha256_hex(input: &str) -> (r: String)
    ensures
        r@ == sha256_hex_of(input@),
        r@.len() == 64,
        forall|i: int| 0 <= i < 64 ==> is_lower_hex_digit(#[trigger] r@[i]),
{
    sha256::digest(input)
}

// ---------------------------------------------------------------------------
// base64
// ---------------------------------------------------------------------------

/// The character for a 6-bit value in the standard Base64 alphabet
/// (`A`–`Z`, `a`–`z`, `0`–`9`, `+`, `/`).
pub open spec fn base64_digit(v: int) -> char {
    if v < 26 {
        (65 + v) as char
    } else if v < 52 {
        (97 + v - 26) as char
    } else if v < 62 {
        (48 + v - 52) as char
    } else if v == 62 {
        '+'
    } else {
        '/'
    }
}

/// Standard padded Base64 (RFC 4648, section 4): each group of three bytes
/// becomes four characters of six bits each, and a last group of one or two
/// bytes is padded with `=`.
pub open spec fn base64_spec(b: Seq<u8>) -> Seq<char>
    decreases b.len(),
{
    let x = b[0] as int;
    let y = b[1] as int;
    let z = b[2] as int;
    if b.len() == 0 {
        Seq::empty()
    } else if b.len() == 1 {
        seq![base64_digit(x / 4), base64_digit((x % 4) * 16), '=', '=']
    } else if b.len() == 2 {
        seq![base64_digit(x / 4), base64_digit((x % 4) * 16 + y / 16), base64_digit((y % 16) * 4), '=']
    } else {
        seq![
            base64_digit(x / 4),
            base64_digit((x % 4) * 16 + y / 16),
            base64_digit((y % 16) * 4 + z / 64),
            base64_digit(z % 64),
        ] + base64_spec(b.skip(3))
    }
}

/// `base64::engine::general_purpose::STANDARD.encode`: the standard alphabet
/// with padding, as `base64_spec` writes it. Inputs so long that the encoded
/// length overflows `usize` (where the crate panics) are left out.
#[verifier::external_body]
pub(crate) fn base64_standard(bytes: &[u8]) -> (r: String)
    requires
        bytes@.len() <= usize::MAX / 4,
    ensures
        r@ == base64_spec(bytes@),
{
    base64::engine::general_purpose::STANDARD.encode(bytes)
}

// ---------------------------------------------------------------------------
// uuid
// ---------------------------------------------------------------------------

/// The shape of a hyphenated lower-case UUID: 36 characters, hyphens at
/// positions 8, 13, 18 and 23, lower-case hex digits elsewhere.
pub open spec fn is_hyphenated_uuid(s: Seq<char>) -> bool {
    &&& s.len() == 36
    &&& forall|i: int|
        0 <= i < 36 ==> if i == 8 || i == 13 || i == 18 || i == 23 {
            #[trigger] s[i] == '-'
        } else {
            is_lower_hex_digit(s[i])
        }
}

/// `uuid::Uuid::new_v4().to_string()`: a random version-4 UUID, written by
/// its `Display` impl (lower-case hex, hyphenated, the version digit `4` at
/// position 14). The value is random, so only its shape is stated. The crate
/// panics when the system gives it no random bytes; that is not excluded.
#[verifier::external_body]
pub(crate) fn new_uuid_v4() -> (r: String)
    ensures
        is_hyphenated_uuid(r@),
        r@[14] == '4',
{
    uuid::Uuid::new_v4().to_string()
}

// ---------------------------------------------------------------------------
// scraper
// ---------------------------------------------------------------------------

#[verifier::external_type_specification]
#[verifier::external_body]
pub struct ExHtml(Html);

#[verifier::external_type_specification]
#[verifier::external_body]
pub struct ExElementRef<'a>(ElementRef<'a>);

/// Where an element stands in a page: the steps that reach it from the
/// document. A step `(s, i)` takes the `i`-th match (counting from 0) of the
/// CSS selector `s` under the current place: for the first step the matches
/// that `Html::select` gives on the document, for later ones the matches that
/// `ElementRef::select` gives among the current element's descendants.
pub type Path = Seq<(Seq<char>, nat)>;

/// The path one step further down.
pub open spec fn step(path: Path, selector: Seq<char>, i: int) -> Path {
    path.push((selector, i as nat))
}

/// Whether `scraper::Selector::parse` accepts a CSS selector text.
pub uninterp spec fn css_selector_parses(text: Seq<char>) -> bool;

/// How many matches `selector` has under the place `path` of the page parsed
/// from `html` (see `Path`).
pub uninterp spec fn html_match_count(html: Seq<char>, path: Path, selector: Seq<char>) -> nat;

/// `ElementRef::inner_html` of the element at `path` of the page `html`.
pub uninterp spec fn html_inner_html(html: Seq<char>, path: Path) -> Seq<char>;

/// `ElementRef::attr(name)` of the element at `path` of the page `html`.
pub uninterp spec fn html_attr(html: Seq<char>, path: Path, name: Seq<char>) -> Option<Seq<char>>;

/// `ElementRef::value().name()` of the element at `path` of the page `html`.
pub uninterp spec fn html_tag_name(html: Seq<char>, path: Path) -> Seq<char>;

/// The identity of the element at `path` of the page `html` (its node in the
/// parsed tree).
pub uninterp spec fn html_element_id(html: Seq<char>, path: Path) -> nat;

/// The identities of the proper ancestors of the element at `path`.
pub uninterp spec fn html_ancestor_ids(html: Seq<char>, path: Path) -> Set<nat>;

pub open spec fn opt_view(o: Option<String>) -> Option<Seq<char>> {
    match o {
        Some(s) => Some(s@),
        None => None,
    }
}

pub open spec fn path_view(p: Seq<(String, usize)>) -> Path {
    p.map_values(|s: (String, usize)| (s.0@, s.1 as nat))
}

/// A page parsed with `scraper::Html::parse_document`, kept with the text it
/// was parsed from. Only `parse_document` makes one, so the tree is always
/// the parse of the text, and the page is known by its text.
pub struct Document {
    text: String,
    tree: Html,
}

impl View for Document {
    type V = Seq<char>;

    closed spec fn view(&self) -> Seq<char> {
        self.text@
    }
}

/// An element of a `Document`, kept with the path that reached it. Only the
/// selections below make one, so the element is always the one at the path,
/// and it is known by the page's text and its path.
pub struct Node<'a> {
    doc: &'a Document,
    path: Vec<(String, usize)>,
    element: ElementRef<'a>,
}

impl<'a> View for Node<'a> {
    type V = (Seq<char>, Path);

    closed spec fn view(&self) -> (Seq<char>, Path) {
        (self.doc.text@, path_view(self.path@))
    }
}

/// `scraper::Html::parse_document`, kept with its text. Parsing never fails
/// (errors are recovered from).
#[verifier::external_body]
pub(crate) fn parse_document(text: &str) -> (d: Document)
    ensures
        d@ == text@,
{
    Document { text: text.to_string(), tree: Html::parse_document(text) }
}

/// `scraper::Selector::parse` then `Html::select` on the document: every
/// match, in order, each with its one-step path. `None` when the selector
/// does not parse. Claimed: the matches are a function of the page text and
/// the selector (`html_match_count`).
#[verifier::external_body]
pub(crate) fn select_in_document<'a>(doc: &'a Document, selector: &str) -> (r: Option<Vec<Node<'a>>>)
    ensures
        r is Some <==> css_selector_parses(selector@),
        r matches Some(v) ==> v@.len() == html_match_count(doc@, Seq::empty(), selector@) && forall|
            i: int,
        | 0 <= i < v@.len() ==> #[trigger] v@[i]@ == (doc@, step(Seq::empty(), selector@, i)),
{
    let sel = match Selector::parse(selector) {
        Ok(sel) => sel,
        Err(_) => return None,
    };
    let mut found = Vec::new();
    for (i, element) in doc.tree.select(&sel).enumerate() {
        found.push(Node { doc, path: vec![(selector.to_string(), i)], element });
    }
    Some(found)
}

/// `scraper::Selector::parse` then `ElementRef::select` on the node: every
/// matching descendant, in order, each with its path one step further down.
/// The walk starts below the node (its own opening edge is skipped), so each
/// match is a proper descendant and never the node itself. `None` when the
/// selector does not parse.
#[verifier::external_body]
pub(crate) fn select_in_node<'a>(node: &Node<'a>, selector: &str) -> (r: Option<Vec<Node<'a>>>)
    ensures
        r is Some <==> css_selector_parses(selector@),
        r matches Some(v) ==> v@.len() == html_match_count(node@.0, node@.1, selector@) && forall|
            i: int,
        | 0 <= i < v@.len() ==> #[trigger] v@[i]@ == (node@.0, step(node@.1, selector@, i)),
        r matches Some(v) ==> forall|i: int|
            0 <= i < v@.len() ==> {
                let m = (#[trigger] v@[i])@.1;
                &&& html_ancestor_ids(node@.0, m).contains(html_element_id(node@.0, node@.1))
                &&& html_element_id(node@.0, m) != html_element_id(node@.0, node@.1)
            },
{
    let sel = match Selector::parse(selector) {
        Ok(sel) => sel,
        Err(_) => return None,
    };
    let mut found = Vec::new();
    for (i, element) in node.element.select(&sel).enumerate() {
        let mut path = node.path.clone();
        path.push((selector.to_string(), i));
        found.push(Node { doc: node.doc, path, element });
    }
    Some(found)
}

/// `scraper::ElementRef::inner_html`: the element's children written back as
/// HTML.
#[verifier::external_body]
pub(crate) fn inner_html(node: &Node) -> (r: String)
    ensures
        r@ == html_inner_html(node@.0, node@.1),
{
    node.element.inner_html()
}

/// `scraper::ElementRef::attr`, the value copied into a `String`.
#[verifier::external_body]
pub(crate) fn attr(node: &Node, name: &str) -> (r: Option<String>)
    ensures
        opt_view(r) == html_attr(node@.0, node@.1, name@),
{
    match node.element.attr(name) {
        Some(v) => Some(v.to_string()),
        None => None,
    }
}

/// The element's local tag name, `ElementRef::value().name()`, copied into a
/// `String`.
#[verifier::external_body]
pub(crate) fn tag_name(node: &Node) -> (r: String)
    ensures
        r@ == html_tag_name(node@.0, node@.1),
{
    node.element.value().name().to_string()
}

} // verus!

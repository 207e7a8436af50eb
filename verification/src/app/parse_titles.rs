//! Listing pages: which addresses are read, and how the media blocks of a
//! page become headline entries.
use vstd::prelude::*;

use crate::app::main::Today;
use crate::deps::{
    attr, css_selector_parses, html_attr, html_match_count, opt_view, parse_document, regex_capture,
    regex_capture_result, regex_is_match, regex_match_result, step, Document, Node, Path,
};
use crate::my_trait::query::Query;
use crate::text::{
    is_whitespace, law_trim_idempotent, lemma_trim_ends, push_str, same_text, starts_with, trim,
    trim_spec,
};

verus! {

/// Why a listing page could not be turned into entries.
#[derive(Debug)]
pub enum ParseTitlesError {
    ResponseError(String),
    BodyError(String),
    TooManyMediaBlockWrap,
    TooManyA,
    ANoTitle,
    ANoId,
}

/// The listing addresses that are read: a section name, a `p/<n>.html` page
/// or a `z/<n>` zone of the VOA news site.
pub const PAGE_URL_PATTERN: &'static str = r"^https:\/\/www\.voanews\.com\/(?:[a-z-]+|p\/\d+\.html|z\/\d+)$";

/// The headline given back in place of a listing for any other address.
pub const REFUSED_TITLE: &'static str = r#"Found "Cross Site Scripting (XSS)", stop parsing."#;

/// Zone pages keep their blocks inside a `.media-block-wrap`.
pub const ZONE_PREFIX: &'static str = "https://www.voanews.com/z/";

/// The one section page laid out like a zone.
pub const HITS_URL: &'static str = "https://www.voanews.com/voa1-the-hits";

/// The article id is the number of the `<n>.html` file an entry links to.
pub const ARTICLE_ID_PATTERN: &'static str = r"^.*?\/(\d+)\.html$";

/// What `parse_titles` does before it fetches anything.
pub enum TitlesPlan {
    /// Fetch the page and read its entries.
    Fetch,
    /// Answer at once with these entries.
    Reply(Vec<Today>),
}

/// The plan for an address, given whether it matched `PAGE_URL_PATTERN`.
pub open spec fn plan_for(matched: bool, plan: TitlesPlan) -> bool {
    if matched {
        plan is Fetch
    } else {
        plan matches TitlesPlan::Reply(v) && v@.len() == 1 && v@[0]@ == (
            REFUSED_TITLE@,
            Seq::<char>::empty(),
        )
    }
}

/// An address that matched the pattern is fetched; any other is answered
/// with one entry whose headline is `REFUSED_TITLE` and whose id is empty.
pub fn plan_from_match(matched: bool) -> (r: TitlesPlan)
    ensures
        plan_for(matched, r),
{
    if matched {
        TitlesPlan::Fetch
    } else {
        let mut title = String::new();
        push_str(&mut title, REFUSED_TITLE);
        let mut v: Vec<Today> = Vec::new();
        v.push(Today { title, id: String::new() });
        TitlesPlan::Reply(v)
    }
}

/// The plan for `url`: it is tested against `PAGE_URL_PATTERN`. `None` when
/// the pattern does not compile.
pub fn plan_titles(url: &str) -> (r: Option<TitlesPlan>)
    ensures
        match regex_match_result(PAGE_URL_PATTERN@, url@) {
            Some(m) => r matches Some(p) && plan_for(m, p),
            None => r is None,
        },
{
    match regex_is_match(PAGE_URL_PATTERN, url) {
        Some(m) => Some(plan_from_match(m)),
        None => None,
    }
}

/// Whether the entries of `url` are read inside its first `.media-block-wrap`
/// rather than from the whole page.
pub open spec fn reads_inside_wrap(url: Seq<char>) -> bool {
    ||| (ZONE_PREFIX@.len() <= url.len() && url.subrange(0, ZONE_PREFIX@.len() as int) == ZONE_PREFIX@)
    ||| url == HITS_URL@
}

pub fn uses_wrap(url: &str) -> (r: bool)
    ensures
        r == reads_inside_wrap(url@),
{
    starts_with(url, ZONE_PREFIX) || same_text(url, HITS_URL)
}

/// The link of a media block: its `title` and `href` attributes.
#[derive(Debug)]
pub struct Link {
    pub title: Option<String>,
    pub href: Option<String>,
}

/// What an entry is read from: whether the block holds an `.ico-video`
/// marker, and its first `a` element, if it has one.
#[derive(Debug)]
pub struct MediaBlock {
    pub has_video: bool,
    pub link: Option<Link>,
}

/// A block as plain values: whether it has a video marker, and the `title`
/// and `href` of its first link, if it has a link.
pub type BlockView = (bool, Option<(Option<Seq<char>>, Option<Seq<char>>)>);

impl View for MediaBlock {
    type V = BlockView;

    open spec fn view(&self) -> BlockView {
        (
            self.has_video,
            match self.link {
                Some(l) => Some((opt_view(l.title), opt_view(l.href))),
                None => None,
            },
        )
    }
}

pub open spec fn blocks_view(v: Seq<MediaBlock>) -> Seq<BlockView> {
    v.map_values(|b: MediaBlock| b@)
}

/// The entry a block gives, in the order the page reader checks it: `None`
/// where the page reader gives up (no link, or an `href` that names no
/// article), else the entry or the error for a missing attribute.
pub open spec fn block_outcome(b: BlockView) -> Option<Result<(Seq<char>, Seq<char>), ParseTitlesError>> {
    match b.1 {
        None => None,
        Some((title, href)) => match title {
            None => Some(Err(ParseTitlesError::ANoTitle)),
            Some(t) => match href {
                None => Some(Err(ParseTitlesError::ANoId)),
                Some(h) => match regex_capture_result(ARTICLE_ID_PATTERN@, h, 1) {
                    Some(Some(id)) => Some(Ok((trim_spec(t), id))),
                    _ => None,
                },
            },
        },
    }
}

/// The entries of a page whose blocks are `blocks`: blocks with a video are
/// skipped, the others are read in order, and the first block that fails
/// decides the outcome. `None` where the page reader gives up.
pub open spec fn titles_outcome(blocks: Seq<BlockView>) -> Option<Result<Seq<(Seq<char>, Seq<char>)>, ParseTitlesError>>
    decreases blocks.len(),
{
    if blocks.len() == 0 {
        Some(Ok(Seq::empty()))
    } else {
        let b = blocks.last();
        match titles_outcome(blocks.drop_last()) {
            Some(Ok(ts)) => if b.0 {
                Some(Ok(ts))
            } else {
                match block_outcome(b) {
                    None => None,
                    Some(Err(e)) => Some(Err(e)),
                    Some(Ok(t)) => Some(Ok(ts.push(t))),
                }
            },
            other => other,
        }
    }
}

pub open spec fn todays_view(v: Seq<Today>) -> Seq<(Seq<char>, Seq<char>)> {
    v.map_values(|t: Today| t@)
}

/// The entry for a link whose title is `title`, given what the article-id
/// pattern captured from its `href`: `None` when nothing was captured.
pub fn today_from_capture(title: &str, captured: Option<Option<String>>) -> (r: Option<Today>)
    ensures
        match captured {
            Some(Some(id)) => r matches Some(t) && t@ == (trim_spec(title@), id@),
            _ => r is None,
        },
{
    match captured {
        Some(Some(id)) => Some(Today { title: trim(title), id }),
        _ => None,
    }
}

/// The entry of one block, as `block_outcome` describes it.
pub fn read_block(b: &MediaBlock) -> (r: Option<Result<Today, ParseTitlesError>>)
    ensures
        match block_outcome(b@) {
            None => r is None,
            Some(Err(e)) => r == Some(Err::<Today, ParseTitlesError>(e)),
            Some(Ok(v)) => r matches Some(Ok(t)) && t@ == v,
        },
{
    match &b.link {
        None => None,
        Some(l) => match &l.title {
            None => Some(Err(ParseTitlesError::ANoTitle)),
            Some(t) => match &l.href {
                None => Some(Err(ParseTitlesError::ANoId)),
                Some(h) => {
                    let captured = regex_capture(ARTICLE_ID_PATTERN, h.as_str(), 1);
                    match today_from_capture(t.as_str(), captured) {
                        Some(today) => Some(Ok(today)),
                        None => None,
                    }
                },
            },
        },
    }
}

/// The entries of a page whose blocks are `blocks`, as `titles_outcome`
/// describes them.
pub fn titles_from_blocks(blocks: &Vec<MediaBlock>) -> (r: Option<Result<Vec<Today>, ParseTitlesError>>)
    ensures
        match titles_outcome(blocks_view(blocks@)) {
            None => r is None,
            Some(Err(e)) => r matches Some(Err(e2)) && e2 == e,
            Some(Ok(ts)) => r matches Some(Ok(v)) && todays_view(v@) == ts,
        },
{
    let ghost bv = blocks_view(blocks@);
    let mut out: Vec<Today> = Vec::new();
    let mut i: usize = 0;
    while i < blocks.len()
        invariant
            i <= blocks@.len(),
            bv == blocks_view(blocks@),
            titles_outcome(bv.take(i as int)) matches Some(Ok(ts)) && todays_view(out@) == ts,
        decreases blocks.len() - i,
    {
        let ghost prefix = bv.take(i as int);
        assert(bv.take(i + 1).drop_last() == prefix);
        assert(bv.take(i + 1).last() == blocks@[i as int]@);
        let b = &blocks[i];
        if !b.has_video {
            match read_block(b) {
                None => {
                    proof { lemma_rest_unread(bv, i + 1); }
                    return None;
                },
                Some(Err(e)) => {
                    proof { lemma_rest_unread(bv, i + 1); }
                    return Some(Err(e));
                },
                Some(Ok(t)) => {
                    out.push(t);
                    assert(todays_view(out@) == todays_view(out@.drop_last()).push(t@));
                },
            }
        }
        i += 1;
    }
    assert(bv.take(i as int) == bv);
    Some(Ok(out))
}

proof fn lemma_rest_unread(blocks: Seq<BlockView>, k: int)
    requires
        0 <= k <= blocks.len(),
        !(titles_outcome(blocks.take(k)) matches Some(Ok(_))),
    ensures
        titles_outcome(blocks) == titles_outcome(blocks.take(k)),
{
    law_first_failure_decides(blocks.take(k), blocks.skip(k));
    assert(blocks.take(k) + blocks.skip(k) == blocks);
}

/// The places of the media blocks of the page `html`: those inside its first
/// `.media-block-wrap` when `inside_wrap`, else all its `.media-block`s.
/// `None` when there is no wrap to read inside or a selector does not parse.
pub open spec fn block_paths(html: Seq<char>, inside_wrap: bool) -> Option<Seq<Path>> {
    let root: Path = Seq::empty();
    if inside_wrap {
        let wrap = step(root, ".media-block-wrap"@, 0);
        if css_selector_parses(".media-block-wrap"@) && html_match_count(
            html,
            root,
            ".media-block-wrap"@,
        ) > 0 && css_selector_parses(".media-block"@) {
            Some(
                Seq::new(
                    html_match_count(html, wrap, ".media-block"@),
                    |i: int| step(wrap, ".media-block"@, i),
                ),
            )
        } else {
            None
        }
    } else if css_selector_parses(".media-block"@) {
        Some(
            Seq::new(
                html_match_count(html, root, ".media-block"@),
                |i: int| step(root, ".media-block"@, i),
            ),
        )
    } else {
        None
    }
}

/// The block at `path` of the page `html`: whether an `.ico-video` lies
/// under it, and the `title` and `href` of its first `a`, if it has one.
pub open spec fn block_at(html: Seq<char>, path: Path) -> BlockView {
    let link = step(path, "a"@, 0);
    (
        html_match_count(html, path, ".ico-video"@) > 0,
        if css_selector_parses("a"@) && html_match_count(html, path, "a"@) > 0 {
            Some((html_attr(html, link, "title"@), html_attr(html, link, "href"@)))
        } else {
            None
        },
    )
}

/// The blocks the page `html` gives. `None` where the page reader gives up
/// before looking at a block: no wrap to read inside, or a selector that
/// does not parse (the video marker's only matters once there is a block).
pub open spec fn page_blocks(html: Seq<char>, inside_wrap: bool) -> Option<Seq<BlockView>> {
    match block_paths(html, inside_wrap) {
        None => None,
        Some(paths) => if paths.len() > 0 && !css_selector_parses(".ico-video"@) {
            None
        } else {
            Some(paths.map_values(|p: Path| block_at(html, p)))
        },
    }
}

/// Reads the blocks of a parsed page, as `page_blocks` describes them.
fn read_media_blocks(doc: &Document, inside_wrap: bool) -> (r: Option<Vec<MediaBlock>>)
    ensures
        match page_blocks(doc@, inside_wrap) {
            None => r is None,
            Some(bs) => r matches Some(v) && blocks_view(v@) == bs,
        },
{
    let ghost html = doc@;
    let ghost root: Path = Seq::empty();
    if inside_wrap {
        let wrap = match doc.query_selector(".media-block-wrap") {
            Some(w) => w,
            None => return None,
        };
        match wrap.query_selector_all(".media-block") {
            Some(found) => {
                let ghost wp = step(root, ".media-block-wrap"@, 0);
                assert(block_paths(html, true) == Some(
                    found@.map_values(|n: Node| n@.1),
                ));
                read_blocks(&found, Ghost(html))
            },
            None => None,
        }
    } else {
        match doc.query_selector_all(".media-block") {
            Some(found) => {
                assert(block_paths(html, false) == Some(
                    found@.map_values(|n: Node| n@.1),
                ));
                read_blocks(&found, Ghost(html))
            },
            None => None,
        }
    }
}

/// The video marker and the link of each block element, in order.
fn read_blocks(found: &Vec<Node>, html: Ghost<Seq<char>>) -> (r: Option<Vec<MediaBlock>>)
    requires
        forall|i: int| 0 <= i < found@.len() ==> (#[trigger] found@[i])@.0 == html@,
    ensures
        r is Some <==> (found@.len() == 0 || css_selector_parses(".ico-video"@)),
        r matches Some(v) ==> blocks_view(v@) == found@.map_values(|n: Node| block_at(html@, n@.1)),
{
    let mut blocks: Vec<MediaBlock> = Vec::new();
    let mut i: usize = 0;
    while i < found.len()
        invariant
            i <= found@.len(),
            forall|k: int| 0 <= k < found@.len() ==> (#[trigger] found@[k])@.0 == html@,
            i > 0 ==> css_selector_parses(".ico-video"@),
            blocks_view(blocks@) == found@.take(i as int).map_values(|n: Node| block_at(html@, n@.1)),
        decreases found.len() - i,
    {
        let block = &found[i];
        let has_video = match block.query_selector_all(".ico-video") {
            Some(v) => v.len() > 0,
            None => return None,
        };
        let link = match block.query_selector("a") {
            Some(a) => Some(Link { title: attr(&a, "title"), href: attr(&a, "href") }),
            None => None,
        };
        let mb = MediaBlock { has_video, link };
        assert(mb@ == block_at(html@, block@.1));
        blocks.push(mb);
        assert(found@.take(i + 1) == found@.take(i as int).push(found@[i as int]));
        assert(found@.take(i + 1).map_values(|n: Node| block_at(html@, n@.1)) == found@.take(
            i as int,
        ).map_values(|n: Node| block_at(html@, n@.1)).push(block_at(html@, found@[i as int]@.1)));
        assert(blocks_view(blocks@) == blocks_view(blocks@.drop_last()).push(mb@));
        i += 1;
    }
    assert(found@.take(i as int) == found@);
    Some(blocks)
}

/// The entries of the listing page `url` whose HTML text is `html`: `None`
/// where the page reader gives up, else what `titles_outcome` gives for the
/// blocks of the page.
pub open spec fn titles_page_spec(url: Seq<char>, html: Seq<char>) -> Option<
    Result<Seq<(Seq<char>, Seq<char>)>, ParseTitlesError>,
> {
    match page_blocks(html, reads_inside_wrap(url)) {
        None => None,
        Some(bs) => titles_outcome(bs),
    }
}

/// The entries of the listing page `url` whose HTML text is `html`, as
/// `titles_page_spec` describes them.
pub fn titles_from_page(url: &str, html: &str) -> (r: Option<Result<Vec<Today>, ParseTitlesError>>)
    ensures
        match titles_page_spec(url@, html@) {
            None => r is None,
            Some(Err(e)) => r matches Some(Err(e2)) && e2 == e,
            Some(Ok(ts)) => r matches Some(Ok(v)) && todays_view(v@) == ts,
        },
{
    let doc = parse_document(html);
    let blocks = match read_media_blocks(&doc, uses_wrap(url)) {
        Some(b) => b,
        None => return None,
    };
    titles_from_blocks(&blocks)
}

/// The blocks without a video marker.
pub open spec fn plain_blocks(blocks: Seq<BlockView>) -> Seq<BlockView> {
    blocks.filter(|b: BlockView| !b.0)
}

/// Blocks with a video give no entry, and every other block gives exactly one
/// entry, in order: a listing that succeeds has one entry per plain block.
pub proof fn law_one_entry_per_plain_block(blocks: Seq<BlockView>)
    requires
        titles_outcome(blocks) matches Some(Ok(ts)),
    ensures
        titles_outcome(blocks) matches Some(Ok(ts)) && ts.len() == plain_blocks(blocks).len()
            && forall|i: int|
            0 <= i < ts.len() ==> block_outcome(#[trigger] plain_blocks(blocks)[i]) == Some(
                Ok::<(Seq<char>, Seq<char>), ParseTitlesError>(ts[i]),
            ),
    decreases blocks.len(),
{
    reveal_with_fuel(Seq::filter, 1);
    if blocks.len() > 0 {
        let front = blocks.drop_last();
        law_one_entry_per_plain_block(front);
        assert(blocks.filter(|b: BlockView| !b.0) == if blocks.last().0 {
            front.filter(|b: BlockView| !b.0)
        } else {
            front.filter(|b: BlockView| !b.0).push(blocks.last())
        });
    }
}

/// A block with a video marker is skipped wherever it stands: inserting one
/// among the blocks of a page leaves the outcome unchanged.
pub proof fn law_video_block_changes_nothing(
    before: Seq<BlockView>,
    video: BlockView,
    after: Seq<BlockView>,
)
    requires
        video.0,
    ensures
        titles_outcome(before.push(video) + after) == titles_outcome(before + after),
    decreases after.len(),
{
    if after.len() == 0 {
        assert(before.push(video) + after == before.push(video));
        assert(before + after == before);
        assert(before.push(video).drop_last() == before);
    } else {
        law_video_block_changes_nothing(before, video, after.drop_last());
        assert((before.push(video) + after).drop_last() == before.push(video) + after.drop_last());
        assert((before + after).drop_last() == before + after.drop_last());
        assert((before.push(video) + after).last() == after.last());
        assert((before + after).last() == after.last());
    }
}

/// The first block that fails decides the outcome: blocks after it are never
/// looked at.
pub proof fn law_first_failure_decides(blocks: Seq<BlockView>, more: Seq<BlockView>)
    requires
        !(titles_outcome(blocks) matches Some(Ok(_))),
    ensures
        titles_outcome(blocks + more) == titles_outcome(blocks),
    decreases more.len(),
{
    if more.len() > 0 {
        law_first_failure_decides(blocks, more.drop_last());
        assert((blocks + more).drop_last() == blocks + more.drop_last());
    } else {
        assert(blocks + more == blocks);
    }
}

/// Every headline that a listing gives is trimmed: it neither starts nor ends
/// with whitespace, and trimming it again changes nothing.
pub proof fn law_titles_are_trimmed(blocks: Seq<BlockView>, i: int)
    requires
        titles_outcome(blocks) matches Some(Ok(ts)) && 0 <= i < ts.len(),
    ensures
        titles_outcome(blocks) matches Some(Ok(ts)) && {
            &&& trim_spec(ts[i].0) == ts[i].0
            &&& ts[i].0.len() > 0 ==> !is_whitespace(ts[i].0[0])
            &&& ts[i].0.len() > 0 ==> !is_whitespace(ts[i].0.last())
        },
    decreases blocks.len(),
{
    let prev = titles_outcome(blocks.drop_last());
    if let Some(Ok(ps)) = prev {
        if i < ps.len() {
            law_titles_are_trimmed(blocks.drop_last(), i);
        } else {
            let b = blocks.last();
            if let Some((Some(t), _)) = b.1 {
                law_trim_idempotent(t);
                lemma_trim_ends(t);
            }
        }
    }
}

/// Blocks that all give an entry give the list of those entries, in order.
proof fn lemma_all_entries(bs: Seq<BlockView>, ts: Seq<(Seq<char>, Seq<char>)>)
    requires
        bs.len() == ts.len(),
        forall|i: int|
            0 <= i < bs.len() ==> !(#[trigger] bs[i]).0 && block_outcome(bs[i]) == Some(
                Ok::<(Seq<char>, Seq<char>), ParseTitlesError>(ts[i]),
            ),
    ensures
        titles_outcome(bs) == Some(Ok::<Seq<(Seq<char>, Seq<char>)>, ParseTitlesError>(ts)),
    decreases bs.len(),
{
    if bs.len() > 0 {
        let k = bs.len() - 1;
        assert(!bs[k].0 && block_outcome(bs[k]) == Some(
            Ok::<(Seq<char>, Seq<char>), ParseTitlesError>(ts[k]),
        ));
        let front = bs.drop_last();
        assert forall|i: int| 0 <= i < front.len() implies !(#[trigger] front[i]).0 && block_outcome(
            front[i],
        ) == Some(Ok::<(Seq<char>, Seq<char>), ParseTitlesError>(ts.drop_last()[i])) by {
            assert(front[i] == bs[i]);
        }
        lemma_all_entries(front, ts.drop_last());
        assert(bs.last() == bs[k]);
        assert(ts.drop_last().push(ts[k]) =~= ts);
    } else {
        assert(ts =~= Seq::<(Seq<char>, Seq<char>)>::empty());
    }
}

/// The media blocks `step(base, ".media-block", i)` of a page, each without a
/// video marker and with a first link that has a title and an article
/// address, give one entry each: the trimmed title and the id of that first
/// link.
proof fn lemma_blocks_under(
    html: Seq<char>,
    base: Path,
    titles: Seq<Seq<char>>,
    ids: Seq<Seq<char>>,
)
    requires
        css_selector_parses("a"@),
        titles.len() == ids.len(),
        forall|i: int|
            0 <= i < ids.len() ==> {
                let b = #[trigger] step(base, ".media-block"@, i);
                &&& html_match_count(html, b, ".ico-video"@) == 0
                &&& html_match_count(html, b, "a"@) > 0
                &&& html_attr(html, step(b, "a"@, 0), "title"@) == Some(titles[i])
                &&& html_attr(html, step(b, "a"@, 0), "href"@) matches Some(h)
                    && regex_capture_result(ARTICLE_ID_PATTERN@, h, 1) == Some(Some(ids[i]))
            },
    ensures
        titles_outcome(
            Seq::new(ids.len(), |i: int| block_at(html, step(base, ".media-block"@, i))),
        ) == Some(
            Ok::<Seq<(Seq<char>, Seq<char>)>, ParseTitlesError>(
                Seq::new(ids.len(), |i: int| (trim_spec(titles[i]), ids[i])),
            ),
        ),
{
    let bs = Seq::new(ids.len(), |i: int| block_at(html, step(base, ".media-block"@, i)));
    let ts = Seq::new(ids.len(), |i: int| (trim_spec(titles[i]), ids[i]));
    assert forall|i: int|
        0 <= i < bs.len() implies !(#[trigger] bs[i]).0 && block_outcome(bs[i]) == Some(
        Ok::<(Seq<char>, Seq<char>), ParseTitlesError>(ts[i]),
    ) by {
        let b = step(base, ".media-block"@, i);
        assert(html_match_count(html, b, ".ico-video"@) == 0);
    }
    lemma_all_entries(bs, ts);
}

/// Every listing address other than a zone (`ZONE_PREFIX`) or `HITS_URL`,
/// section pages and `p/<n>.html` pages alike, is read from all the
/// `.media-block` elements of the page, and each block's entry comes from its
/// first `a` element, whatever other links it holds: where each block has no
/// video marker and its first link has title `titles[i]` and an `href` whose
/// article id is `ids[i]`, the entries are `(trim(titles[i]), ids[i])`.
pub proof fn law_entries_from_first_links(
    url: Seq<char>,
    html: Seq<char>,
    titles: Seq<Seq<char>>,
    ids: Seq<Seq<char>>,
)
    requires
        !(ZONE_PREFIX@.len() <= url.len() && url.subrange(0, ZONE_PREFIX@.len() as int)
            == ZONE_PREFIX@),
        url != HITS_URL@,
        css_selector_parses(".media-block"@),
        css_selector_parses(".ico-video"@),
        css_selector_parses("a"@),
        titles.len() == ids.len(),
        ids.len() == html_match_count(html, Seq::empty(), ".media-block"@),
        forall|i: int|
            0 <= i < ids.len() ==> {
                let b = #[trigger] step(Seq::empty(), ".media-block"@, i);
                &&& html_match_count(html, b, ".ico-video"@) == 0
                &&& html_match_count(html, b, "a"@) > 0
                &&& html_attr(html, step(b, "a"@, 0), "title"@) == Some(titles[i])
                &&& html_attr(html, step(b, "a"@, 0), "href"@) matches Some(h)
                    && regex_capture_result(ARTICLE_ID_PATTERN@, h, 1) == Some(Some(ids[i]))
            },
    ensures
        titles_page_spec(url, html) matches Some(Ok(ts)) && ts.len() == ids.len() && forall|i: int|
            0 <= i < ts.len() ==> #[trigger] ts[i] == (trim_spec(titles[i]), ids[i]),
{
    let root: Path = Seq::empty();
    assert(!reads_inside_wrap(url));
    let paths = Seq::new(
        html_match_count(html, root, ".media-block"@),
        |i: int| step(root, ".media-block"@, i),
    );
    assert(block_paths(html, false) == Some(paths));
    assert(paths.map_values(|p: Path| block_at(html, p)) =~= Seq::new(
        ids.len(),
        |i: int| block_at(html, step(root, ".media-block"@, i)),
    ));
    lemma_blocks_under(html, root, titles, ids);
}

/// A zone address (one that starts with `ZONE_PREFIX`) or `HITS_URL` is read
/// only inside the page's first `.media-block-wrap`: on a page without one
/// the reader gives up, whatever media blocks the page holds elsewhere.
pub proof fn law_zone_page_needs_wrap(url: Seq<char>, html: Seq<char>)
    requires
        (ZONE_PREFIX@.len() <= url.len() && url.subrange(0, ZONE_PREFIX@.len() as int)
            == ZONE_PREFIX@) || url == HITS_URL@,
        html_match_count(html, Seq::empty(), ".media-block-wrap"@) == 0,
    ensures
        titles_page_spec(url, html) is None,
{
}

/// On a zone address or `HITS_URL`, the entries come from the `.media-block`
/// elements inside the page's first `.media-block-wrap`, one per block, each
/// from the block's first `a` element: where each such block has no video
/// marker and its first link has title `titles[i]` and an `href` whose
/// article id is `ids[i]`, the entries are `(trim(titles[i]), ids[i])`.
pub proof fn law_zone_entries_inside_wrap(
    url: Seq<char>,
    html: Seq<char>,
    titles: Seq<Seq<char>>,
    ids: Seq<Seq<char>>,
)
    requires
        (ZONE_PREFIX@.len() <= url.len() && url.subrange(0, ZONE_PREFIX@.len() as int)
            == ZONE_PREFIX@) || url == HITS_URL@,
        css_selector_parses(".media-block-wrap"@),
        css_selector_parses(".media-block"@),
        css_selector_parses(".ico-video"@),
        css_selector_parses("a"@),
        html_match_count(html, Seq::empty(), ".media-block-wrap"@) > 0,
        titles.len() == ids.len(),
        ids.len() == html_match_count(
            html,
            step(Seq::empty(), ".media-block-wrap"@, 0),
            ".media-block"@,
        ),
        forall|i: int|
            0 <= i < ids.len() ==> {
                let b = #[trigger] step(
                    step(Seq::empty(), ".media-block-wrap"@, 0),
                    ".media-block"@,
                    i,
                );
                &&& html_match_count(html, b, ".ico-video"@) == 0
                &&& html_match_count(html, b, "a"@) > 0
                &&& html_attr(html, step(b, "a"@, 0), "title"@) == Some(titles[i])
                &&& html_attr(html, step(b, "a"@, 0), "href"@) matches Some(h)
                    && regex_capture_result(ARTICLE_ID_PATTERN@, h, 1) == Some(Some(ids[i]))
            },
    ensures
        titles_page_spec(url, html) matches Some(Ok(ts)) && ts.len() == ids.len() && forall|i: int|
            0 <= i < ts.len() ==> #[trigger] ts[i] == (trim_spec(titles[i]), ids[i]),
{
    let wrap = step(Seq::empty(), ".media-block-wrap"@, 0);
    assert(reads_inside_wrap(url));
    let paths = Seq::new(
        html_match_count(html, wrap, ".media-block"@),
        |i: int| step(wrap, ".media-block"@, i),
    );
    assert(block_paths(html, true) == Some(paths));
    assert(paths.map_values(|p: Path| block_at(html, p)) =~= Seq::new(
        ids.len(),
        |i: int| block_at(html, step(wrap, ".media-block"@, i)),
    ));
    lemma_blocks_under(html, wrap, titles, ids);
}

/// Every address that is neither a zone nor `HITS_URL` reads a page the same
/// way: a `p/<n>.html` page and a section page with the same HTML give the
/// same entries.
pub proof fn law_other_addresses_read_alike(url1: Seq<char>, url2: Seq<char>, html: Seq<char>)
    requires
        !(ZONE_PREFIX@.len() <= url1.len() && url1.subrange(0, ZONE_PREFIX@.len() as int)
            == ZONE_PREFIX@),
        url1 != HITS_URL@,
        !(ZONE_PREFIX@.len() <= url2.len() && url2.subrange(0, ZONE_PREFIX@.len() as int)
            == ZONE_PREFIX@),
        url2 != HITS_URL@,
    ensures
        titles_page_spec(url1, html) == titles_page_spec(url2, html),
{
}

} // verus!

use base64::Engine;
use voanews::app::main::{desc_redirect, plan_desc, DescPlan, BAD_ID_MESSAGE};
use voanews::app::parse_ps::{article_url, audio_source_tag, page_rows, NEWSCAST_TITLE};
use voanews::app::parse_titles::{
    plan_titles, read_block, titles_from_blocks, titles_from_page, today_from_capture, uses_wrap,
    Link, MediaBlock, ParseTitlesError, TitlesPlan, REFUSED_TITLE,
};

fn block(has_video: bool, title: Option<&str>, href: Option<&str>) -> MediaBlock {
    MediaBlock {
        has_video,
        link: Some(Link {
            title: title.map(|t| t.to_string()),
            href: href.map(|h| h.to_string()),
        }),
    }
}

#[test]
fn listing_addresses_are_fetched() {
    for url in [
        "https://www.voanews.com/usa",
        "https://www.voanews.com/east-asia-pacific",
        "https://www.voanews.com/p/6290.html",
        "https://www.voanews.com/z/598",
    ] {
        assert!(matches!(plan_titles(url), Some(TitlesPlan::Fetch)), "{url}");
    }
}

#[test]
fn other_addresses_are_refused() {
    for url in [
        "https://evil.example.com/",
        "https://www.voanews.com/USA",
        // A digit is not allowed in a section name, so this one is refused too.
        "https://www.voanews.com/voa1-the-hits",
        "https://www.voanews.com/p/12.htm",
        "https://www.voanews.com/z/abc",
        "http://www.voanews.com/usa",
        "https://www.voanews.com/usa?x=<script>",
    ] {
        match plan_titles(url) {
            Some(TitlesPlan::Reply(v)) => {
                assert_eq!(v.len(), 1);
                assert_eq!(v[0].title, REFUSED_TITLE);
                assert_eq!(v[0].title, r#"Found "Cross Site Scripting (XSS)", stop parsing."#);
                assert_eq!(v[0].id, "");
            }
            _ => panic!("{url} was not refused"),
        }
    }
}

#[test]
fn zone_and_hits_pages_read_inside_the_wrap() {
    assert!(uses_wrap("https://www.voanews.com/z/598"));
    assert!(uses_wrap("https://www.voanews.com/voa1-the-hits"));
    assert!(!uses_wrap("https://www.voanews.com/usa"));
    assert!(!uses_wrap("https://www.voanews.com/voa1-the-hits2"));
}

#[test]
fn article_id_is_captured_from_href() {
    let t = read_block(&block(false, Some("  A headline \n"), Some("/a/some-story/7654321.html")));
    match t {
        Some(Ok(today)) => {
            assert_eq!(today.title, "A headline");
            assert_eq!(today.id, "7654321");
        }
        _ => panic!("no entry"),
    }
    let full = read_block(&block(false, Some("x"), Some("https://www.voanews.com/a/b/c/42.html")));
    assert_eq!(full.unwrap().unwrap().id, "42");
}

#[test]
fn href_without_article_id_gives_up() {
    assert!(read_block(&block(false, Some("x"), Some("/a/story.html"))).is_none());
    assert!(read_block(&block(false, Some("x"), Some("/a/123.htm"))).is_none());
    assert!(read_block(&block(false, Some("x"), Some("123.html"))).is_none());
}

#[test]
fn today_from_capture_takes_the_captured_id() {
    let t = today_from_capture(" T ", Some(Some("99".to_string()))).unwrap();
    assert_eq!(t.title, "T");
    assert_eq!(t.id, "99");
    assert!(today_from_capture("T", Some(None)).is_none());
    assert!(today_from_capture("T", None).is_none());
}

#[test]
fn missing_title_is_reported_first() {
    match read_block(&block(false, None, None)) {
        Some(Err(ParseTitlesError::ANoTitle)) => {}
        other => panic!("{other:?}"),
    }
}

#[test]
fn missing_href_is_reported() {
    match read_block(&block(false, Some("t"), None)) {
        Some(Err(ParseTitlesError::ANoId)) => {}
        other => panic!("{other:?}"),
    }
}

#[test]
fn block_without_link_gives_up() {
    let b = MediaBlock { has_video: false, link: None };
    assert!(read_block(&b).is_none());
}

#[test]
fn video_blocks_are_skipped() {
    let blocks = vec![
        block(false, Some("One"), Some("/a/x/1.html")),
        block(true, None, None),
        block(false, Some(" Two "), Some("/a/y/2.html")),
    ];
    let v = titles_from_blocks(&blocks).unwrap().unwrap();
    assert_eq!(v.len(), 2);
    assert_eq!((v[0].title.as_str(), v[0].id.as_str()), ("One", "1"));
    assert_eq!((v[1].title.as_str(), v[1].id.as_str()), ("Two", "2"));
}

#[test]
fn first_failure_decides() {
    let blocks = vec![
        block(false, Some("One"), Some("/a/x/1.html")),
        block(false, None, Some("/a/y/2.html")),
        MediaBlock { has_video: false, link: None },
    ];
    assert!(matches!(titles_from_blocks(&blocks), Some(Err(ParseTitlesError::ANoTitle))));
    let blocks = vec![
        MediaBlock { has_video: false, link: None },
        block(false, None, Some("/a/y/2.html")),
    ];
    assert!(titles_from_blocks(&blocks).is_none());
}

const LISTING: &str = r#"<html><body>
<div class="media-block"><a href="/a/first-story/7000001.html" title="  First story  ">x</a></div>
<div class="media-block"><span class="ico-video"></span><a href="/a/video/7000002.html" title="Video">v</a></div>
<div class="media-block"><a href="https://www.voanews.com/a/third/7000003.html" title="Third">y</a></div>
</body></html>"#;

const ZONE: &str = r#"<html><body>
<div class="media-block"><a href="/a/outside/1.html" title="Outside">o</a></div>
<div class="media-block-wrap">
  <div class="media-block"><a href="/a/inside/2.html" title="Inside">i</a></div>
</div>
</body></html>"#;

#[test]
fn listing_page_entries() {
    let v = titles_from_page("https://www.voanews.com/usa", LISTING).unwrap().unwrap();
    let got: Vec<(String, String)> = v.into_iter().map(|t| (t.title, t.id)).collect();
    assert_eq!(
        got,
        vec![
            ("First story".to_string(), "7000001".to_string()),
            ("Third".to_string(), "7000003".to_string()),
        ]
    );
}

#[test]
fn zone_page_reads_only_inside_wrap() {
    let v = titles_from_page("https://www.voanews.com/z/598", ZONE).unwrap().unwrap();
    assert_eq!(v.len(), 1);
    assert_eq!(v[0].title, "Inside");
    assert_eq!(v[0].id, "2");
    let all = titles_from_page("https://www.voanews.com/usa", ZONE).unwrap().unwrap();
    assert_eq!(all.len(), 2);
}

#[test]
fn zone_page_without_wrap_gives_up() {
    assert!(titles_from_page("https://www.voanews.com/z/598", LISTING).is_none());
}

#[test]
fn page_block_without_title() {
    let html = r#"<div class="media-block"><a href="/a/x/5.html">x</a></div>"#;
    assert!(matches!(
        titles_from_page("https://www.voanews.com/usa", html),
        Some(Err(ParseTitlesError::ANoTitle))
    ));
}

#[test]
fn desc_plans() {
    assert!(matches!(plan_desc("123"), DescPlan::Fetch(123)));
    assert!(matches!(plan_desc("-4"), DescPlan::Fetch(-4)));
    match plan_desc("12x") {
        DescPlan::Reply(rows) => {
            assert_eq!(rows.len(), 1);
            assert_eq!(rows[0][0], "p");
            assert_eq!(rows[0][1], BAD_ID_MESSAGE);
            assert_eq!(rows[0][1], r#"<em>The query param "id" is wrong.</em>"#);
        }
        DescPlan::Fetch(_) => panic!("fetched"),
    }
}

#[test]
fn redirect_and_article_addresses() {
    assert_eq!(desc_redirect(7654321), "/#/desc?id=7654321");
    assert_eq!(desc_redirect(-5), "/#/desc?id=-5");
    assert_eq!(article_url(7654321), "https://www.voanews.com/a/7654321.html");
    assert_eq!(article_url(-1), "https://www.voanews.com/a/-1.html");
}

#[test]
fn audio_tag() {
    assert_eq!(
        audio_source_tag("QUJD"),
        r#"<source src="https://voanews.jtp0415.top/api/transcribe/audio?url=$QUJD" type="audio/mpeg">"#
    );
}

const ARTICLE: &str = r#"<html><body><h1> Some Headline </h1><time>
 June 1, 2024 </time><div id="article-content"><p>One</p><p>Two <b>bold</b></p></div>
<p>Outside</p></body></html>"#;

const NEWSCAST: &str = r#"<html><body><h1>VOA Newscasts</h1><time>10:00 UTC</time>
<div class="c-mmp"><a href="https://av.voanews.com/clips/VEN/2024/06/01/20240601-100000-VEN119-program.mp3">dl</a></div>
</body></html>"#;

#[test]
fn article_page_rows() {
    let rows = page_rows(ARTICLE).unwrap();
    let got: Vec<(String, String)> = rows.into_iter().map(|[a, b]| (a, b)).collect();
    assert_eq!(
        got,
        vec![
            ("h1".to_string(), "Some Headline".to_string()),
            ("div".to_string(), "June 1, 2024".to_string()),
            ("p".to_string(), "One".to_string()),
            ("p".to_string(), "Two <b>bold</b>".to_string()),
        ]
    );
}

#[test]
fn newscast_page_rows() {
    let rows = page_rows(NEWSCAST).unwrap();
    assert_eq!(rows.len(), 3);
    assert_eq!(rows[0], ["h1".to_string(), NEWSCAST_TITLE.to_string()]);
    assert_eq!(rows[1], ["div".to_string(), "10:00 UTC".to_string()]);
    assert_eq!(rows[2][0], "video");
    assert_eq!(
        rows[2][1],
        r#"<source src="https://voanews.jtp0415.top/api/transcribe/audio?url=$aHR0cHM6Ly9hdi52b2FuZXdzLmNvbS9jbGlwcy9WRU4vMjAyNC8wNi8wMS8yMDI0MDYwMS0xMDAwMDAtVkVOMTE5LXByb2dyYW0ubXAz" type="audio/mpeg">"#
    );
}

#[test]
fn page_without_headline_gives_up() {
    assert!(page_rows("<html><body><time>t</time></body></html>").is_none());
    assert!(page_rows("<html><body><h1>x</h1></body></html>").is_none());
    assert!(page_rows("<html><body><h1>x</h1><time>t</time></body></html>").is_none());
    assert!(page_rows("<html><body><h1>VOA Newscasts</h1><time>t</time></body></html>").is_none());
}

#[test]
fn headline_whitespace_is_ignored() {
    let spaced = NEWSCAST.replace("<h1>VOA Newscasts</h1>", "<h1>  VOA Newscasts\n</h1>");
    let a = page_rows(NEWSCAST).unwrap();
    let b = page_rows(&spaced).unwrap();
    assert_eq!(a, b);
    assert_eq!(b.len(), 3);
}

#[test]
fn base64_padding_of_audio_links() {
    for (href, encoded) in [("a.mp3", "YS5tcDM="), ("ab.mp3", "YWIubXAz"), ("abc.mp3", "YWJjLm1wMw==")] {
        let html = format!(
            r#"<h1>VOA Newscasts</h1><time>t</time><div class="c-mmp"><a href="{href}">x</a></div>"#
        );
        let rows = page_rows(&html).unwrap();
        assert_eq!(rows[2][1], audio_source_tag(encoded));
    }
}

#[test]
fn newscast_without_link_href_gives_up() {
    let html = r#"<h1>VOA Newscasts</h1><time>t</time><div class="c-mmp"><a>x</a></div>"#;
    assert!(page_rows(html).is_none());
}

#[test]
fn article_without_paragraphs_has_two_rows() {
    let rows = page_rows(r#"<h1>H</h1><time>T</time><div id="article-content"></div>"#).unwrap();
    assert_eq!(rows.len(), 2);
}

#[test]
fn inserted_video_block_changes_nothing() {
    let plain = vec![
        block(false, Some("One"), Some("/a/x/1.html")),
        block(false, Some("Two"), Some("/a/y/2.html")),
    ];
    let with_video = vec![
        block(false, Some("One"), Some("/a/x/1.html")),
        MediaBlock { has_video: true, link: None },
        block(false, Some("Two"), Some("/a/y/2.html")),
    ];
    let a = titles_from_blocks(&plain).unwrap().unwrap();
    let b = titles_from_blocks(&with_video).unwrap().unwrap();
    let a: Vec<(String, String)> = a.into_iter().map(|t| (t.title, t.id)).collect();
    let b: Vec<(String, String)> = b.into_iter().map(|t| (t.title, t.id)).collect();
    assert_eq!(a, b);
}

#[test]
fn audio_link_decodes_back_to_href() {
    let rows = page_rows(NEWSCAST).unwrap();
    let tag = &rows[2][1];
    let start = tag.find("url=$").unwrap() + "url=$".len();
    let end = start + tag[start..].find('"').unwrap();
    let decoded = base64::engine::general_purpose::STANDARD.decode(&tag[start..end]).unwrap();
    assert_eq!(
        decoded,
        b"https://av.voanews.com/clips/VEN/2024/06/01/20240601-100000-VEN119-program.mp3".to_vec()
    );
}

#[test]
fn wrap_is_not_its_own_block() {
    let html = r#"<div class="media-block-wrap media-block">
  <div class="media-block"><a href="/a/inside/2.html" title="Inside">i</a></div>
</div>"#;
    let v = titles_from_page("https://www.voanews.com/z/1", html).unwrap().unwrap();
    assert_eq!(v.len(), 1);
    assert_eq!(v[0].id, "2");
}

use std::collections::HashMap;

use kotoba::import::epub::{extract_chapter_text, parse_nav_toc, parse_ncx_toc};
use kotoba::import::subtitle::{parse_ass, parse_srt};
use kotoba::import::syosetsu;
use kotoba::import::syosetu;
use kotoba::import::web::{extract_article, extract_title};

#[test]
fn test_parse_srt() {
    let srt = "\
1
00:00:01,000 --> 00:00:03,000
こんにちは。

2
00:00:04,000 --> 00:00:06,000
<i>お元気ですか。</i>

3
00:00:07,000 --> 00:00:09,000
はい、元気です。
";
    let result = parse_srt(srt).unwrap();
    assert!(result.contains("こんにちは。"));
    assert!(result.contains("お元気ですか。"));
    assert!(result.contains("元気です。"));
}

#[test]
fn test_parse_ass() {
    let ass = "\
[Script Info]
Title: Test

[Events]
Format: Layer, Start, End, Style, Name, MarginL, MarginR, MarginV, Effect, Text
Dialogue: 0,0:00:01.00,0:00:03.00,Default,,0,0,0,,こんにちは。
Dialogue: 0,0:00:04.00,0:00:06.00,Default,,0,0,0,,{\\i1}お元気ですか。{\\i0}
Comment: 0,0:00:07.00,0:00:09.00,Default,,0,0,0,,これはコメントです。
Dialogue: 0,0:00:10.00,0:00:12.00,Default,,0,0,0,,はい\\N元気です。
";
    let result = parse_ass(ass).unwrap();
    assert!(result.contains("こんにちは。"));
    assert!(result.contains("お元気ですか。"));
    assert!(!result.contains("コメントです"));
    assert!(result.contains("はい\n元気です。"));
}

#[test]
fn test_parse_srt_empty() {
    let result = parse_srt("").unwrap();
    assert!(result.is_empty());
}

#[test]
fn srt_blocks_become_one_paragraph_per_gap() {
    let srt = "1\n00:00:01,000 --> 00:00:02,000\n一行目\n\n2\n00:00:03,000 --> 00:00:04,000\n二行目\n";
    let result = parse_srt(srt).unwrap();
    assert!(result.contains("一行目"));
    assert!(result.contains("二行目"));
    assert!(!result.contains("-->"));
}

#[test]
fn test_extract_chapter_text() {
    let html = r#"
        <html>
        <body>
            <h1>第一章</h1>
            <p>最初の段落です。</p>
            <p>二番目の段落です。</p>
        </body>
        </html>
        "#;
    let (title, content) = extract_chapter_text(html);
    assert_eq!(title, Some("第一章".to_string()));
    assert!(content.contains("最初の段落です。"));
    assert!(content.contains("二番目の段落です。"));
}

#[test]
fn test_extract_chapter_text_no_heading() {
    let html = "<html><body><p>Some text</p></body></html>";
    let (title, _content) = extract_chapter_text(html);
    assert_eq!(title, None);
}

#[test]
fn chapter_paragraphs_are_separated_by_blank_lines() {
    let html = "<html><body><p> 一 </p><p>二</p></body></html>";
    let (_, content) = extract_chapter_text(html);
    assert_eq!(content, "一\n\n二");
}

#[test]
fn test_parse_ncx_toc() {
    let ncx = r#"<?xml version="1.0" encoding="UTF-8"?>
        <ncx xmlns="http://www.daisy.org/z3986/2005/ncx/">
            <navMap>
                <navPoint id="np1">
                    <navLabel><text>第一章</text></navLabel>
                    <content src="chapter1.xhtml"/>
                </navPoint>
                <navPoint id="np2">
                    <navLabel><text>第二章</text></navLabel>
                    <content src="chapter2.xhtml#start"/>
                </navPoint>
            </navMap>
        </ncx>"#;
    let titles: HashMap<String, String> = parse_ncx_toc(ncx).into_iter().collect();
    assert_eq!(titles.get("chapter1.xhtml"), Some(&"第一章".to_string()));
    assert_eq!(titles.get("chapter2.xhtml"), Some(&"第二章".to_string()));
}

#[test]
fn test_parse_nav_toc() {
    let nav = r#"<html xmlns:epub="http://www.idpf.org/2007/ops">
        <body>
            <nav epub:type="toc">
                <ol>
                    <li><a href="chapter1.xhtml">第一章</a></li>
                    <li><a href="chapter2.xhtml#sec1">第二章</a></li>
                </ol>
            </nav>
        </body>
        </html>"#;
    let titles: HashMap<String, String> = parse_nav_toc(nav).into_iter().collect();
    assert_eq!(titles.get("chapter1.xhtml"), Some(&"第一章".to_string()));
    assert_eq!(titles.get("chapter2.xhtml"), Some(&"第二章".to_string()));
}

#[test]
fn test_extract_article_basic() {
    let html = r#"
        <html>
        <head><title>テスト記事</title></head>
        <body>
            <nav>Navigation</nav>
            <article>
                <p>これはテスト記事です。日本語のコンテンツを含んでいます。</p>
                <p>二番目の段落。もっと日本語のテキストがここにあります。とても長い文章を作成して百文字以上のテキストになるようにします。</p>
            </article>
            <footer>Footer</footer>
        </body>
        </html>
        "#;
    let (title, content) = extract_article(html, "http://example.com").unwrap();
    assert_eq!(title, "テスト記事");
    assert!(content.contains("テスト記事です"));
}

#[test]
fn test_extract_title_fallback() {
    let html = "<html><body><h1>見出し</h1><p>Content</p></body></html>";
    let title = extract_title(html);
    assert_eq!(title, "見出し");
}

#[test]
fn title_falls_back_to_og_meta_then_to_a_default() {
    let og = r#"<html><head><meta property="og:title" content=" OG "></head><body></body></html>"#;
    assert_eq!(extract_title(og), "OG");
    assert_eq!(extract_title("<html><body><p>x</p></body></html>"), "Untitled Web Import");
}

#[test]
fn short_articles_fall_back_to_the_body_text() {
    let html = "<html><body><article>短い</article><p> 本文 </p></body></html>";
    let (title, content) = extract_article(html, "http://example.com").unwrap();
    assert_eq!(title, "Untitled Web Import");
    assert_eq!(content, "短い\n本文");
}

#[test]
fn a_page_without_text_is_an_error() {
    let err = extract_article("<html><body></body></html>", "http://example.com").unwrap_err();
    assert_eq!(err, "Could not extract meaningful text content from HTML");
}

fn inner_html_of(html: &str, selector: &str) -> String {
    let document = scraper::Html::parse_document(html);
    let sel = scraper::Selector::parse(selector).unwrap();
    let elem = document.select(&sel).next().unwrap();
    elem.inner_html()
}

#[test]
fn syosetu_test_extract_novel_text() {
    let html = r#"<div id="novel_honbun"><p>第一行です。<br>第二行です。</p><p>第三行です。</p></div>"#;
    let text = syosetu::extract_novel_text(&inner_html_of(html, "#novel_honbun")).unwrap();
    assert!(text.contains("第一行です。"));
    assert!(text.contains("第二行です。"));
}

#[test]
fn syosetsu_test_extract_novel_text() {
    let html = r#"<div id="novel_honbun"><p>第一行です。<br>第二行です。</p><p>第三行です。</p></div>"#;
    let text = syosetu::extract_novel_text(&inner_html_of(html, "#novel_honbun")).unwrap();
    assert!(text.contains("第一行です。"));
    assert!(text.contains("第二行です。"));
}

#[test]
fn novel_text_strips_tags_and_decodes_entities() {
    let text = syosetu::extract_novel_text("<p><ruby>漢<rt>かん</rt></ruby> &amp; &lt;b&gt;</p><p></p><p></p><p>次</p>").unwrap();
    assert_eq!(text, "漢かん & <b>\n\n\n次");
}

#[test]
fn chapter_content_joins_preface_body_and_afterword() {
    let html = r#"<html><body><div id="novel_p">前書き</div><div id="novel_honbun"><p>本文</p></div><div id="novel_a">後書き</div></body></html>"#;
    let content = syosetu::extract_chapter_content(html).unwrap();
    assert_eq!(content, "前書き\n\n本文\n\n後書き");
}

#[test]
fn chapter_pages_get_titles_and_urls() {
    let html = r#"<html><body><p class="novel_subtitle"> 第一話 </p><div id="novel_honbun">本文</div></body></html>"#;
    let (title, content) = syosetu::prepare_chapter("n1234ab", 3, html).unwrap();
    assert_eq!(title, "第一話 — Ch.3");
    assert_eq!(content, "本文");
    let err = syosetu::prepare_chapter("n1234ab", 3, "<html><body></body></html>").unwrap_err();
    assert_eq!(err, "Could not extract chapter text from https://ncode.syosetu.com/n1234ab/3/");
    assert_eq!(syosetu::page_url("https://ncode.syosetu.com/", "n1", 0), "https://ncode.syosetu.com/n1/");
    assert_eq!(syosetu::toc_url("n1", 1), "https://ncode.syosetu.com/n1/");
    assert_eq!(syosetu::toc_url("n1", 12), "https://ncode.syosetu.com/n1/?p=12");
    assert_eq!(syosetu::chapter_title("<html></html>", 7), "Chapter 7");
}

#[test]
fn toc_pages_add_numbered_chapters_and_follow_links() {
    let page = r#"<html><body>
        <h1 class="p-novel__title">題名</h1>
        <div class="p-novel__author"><a>作者</a></div>
        <a class="p-eplist__subtitle">一話</a><a class="p-eplist__subtitle"> </a><a class="p-eplist__subtitle">二話</a>
        <a class="c-pager__item--next" href="?p=2">次へ</a>
        </body></html>"#;
    assert_eq!(syosetu::novel_title(page, "n1"), "題名");
    assert_eq!(syosetu::novel_author(page), "作者");
    let mut chapters = Vec::new();
    assert!(syosetu::absorb_toc_page(&mut chapters, page));
    assert_eq!(chapters.len(), 2);
    assert_eq!(chapters[1].number, 2);
    assert_eq!(chapters[1].title, "二話");
    let last = r#"<html><body><dl><dd class="subtitle"><a>三話</a></dd></dl><span class="c-pager__item--next">次へ</span></body></html>"#;
    assert!(!syosetu::absorb_toc_page(&mut chapters, last));
    assert_eq!(chapters[2].number, 3);
    assert_eq!(chapters[2].title, "三話");
    assert_eq!(syosetu::novel_title("<html></html>", "n1"), "Novel n1");
}

#[test]
fn a_one_page_novel_has_one_chapter() {
    let page = r#"<html><body><div id="novel_honbun">本文</div></body></html>"#;
    let c = syosetu::oneshot_chapter(page, "短編").unwrap();
    assert_eq!(c.number, 1);
    assert_eq!(c.title, "短編");
    assert!(syosetu::oneshot_chapter("<html></html>", "短編").is_none());
}

#[test]
fn syosetsu_toc_lists_every_chapter_link() {
    let page = r#"<html><body><p class="novel_title">題名</p><div class="novel_writername"><a>作者</a></div>
        <dd class="subtitle"><a> 一話 </a></dd><dd class="subtitle"><a>二話</a></dd></body></html>"#;
    let novel = syosetsu::novel_from_toc("n9", page);
    assert_eq!(novel.title, "題名");
    assert_eq!(novel.author, "作者");
    assert_eq!(novel.total_chapters, 2);
    assert_eq!(novel.chapters[0].title, "一話");
    let oneshot = syosetsu::novel_from_toc("n9", r#"<html><body><div id="novel_honbun">x</div></body></html>"#);
    assert_eq!(oneshot.title, "Novel n9");
    assert_eq!(oneshot.chapters.len(), 1);
    assert_eq!(oneshot.chapters[0].title, "Novel n9");
}

#[test]
fn syosetsu_chapters_read_preface_body_and_afterword() {
    let html = r#"<html><body><div id="novel_p">前</div><div id="novel_honbun">本</div></body></html>"#;
    let (title, content) = syosetsu::prepare_chapter("n9", 2, html).unwrap();
    assert_eq!(title, "Chapter 2 — Ch.2");
    assert_eq!(content, "前\n\n本");
}

#[test]
fn the_container_names_the_package_file() {
    let container = r#"<?xml version="1.0"?><container><rootfiles><rootfile full-path="OEBPS/book.opf" media-type="application/oebps-package+xml"/></rootfiles></container>"#;
    assert_eq!(kotoba::import::epub::opf_path_from_container(container), "OEBPS/book.opf");
    assert_eq!(kotoba::import::epub::opf_path_from_container("<container></container>"), "content.opf");
    assert_eq!(kotoba::import::epub::opf_dir("OEBPS/book.opf"), "OEBPS/");
}

#[test]
fn the_package_gives_reading_order_and_tables_of_contents() {
    let opf = r#"<package><manifest>
        <item id="nav" href="nav.xhtml" media-type="application/xhtml+xml" properties="nav"/>
        <item id="ncx" href="toc.ncx" media-type="application/x-dtbncx+xml"/>
        <item id="c1" href="c1.xhtml" media-type="application/xhtml+xml"/>
        <item id="c2" href="c2.xhtml" media-type="application/xhtml+xml"/>
        <item id="img" href="cover.jpg" media-type="image/jpeg"/>
        </manifest><spine toc="ncx"><itemref idref="c2"/><itemref idref="c1"/><itemref idref="img"/><itemref idref="zz"/></spine></package>"#;
    let m = kotoba::import::epub::parse_opf_manifest(opf);
    assert_eq!(m.spine_items, vec!["c2.xhtml".to_string(), "c1.xhtml".to_string()]);
    assert_eq!(m.toc_ncx_href, Some("toc.ncx".to_string()));
    assert_eq!(m.nav_href, Some("nav.xhtml".to_string()));
}

#[test]
fn a_spine_names_its_ncx_and_an_empty_spine_takes_the_manifest() {
    let opf = r#"<package><manifest>
        <item id="t" href="book.ncx" media-type="text/plain"/>
        <item id="a" href="a.xhtml" media-type="application/xhtml+xml"/>
        <item id="a" href="a2.xhtml" media-type="application/xhtml+xml"/>
        <item id="b" href="b.xhtml" media-type="application/xhtml+xml"/>
        </manifest><spine toc="t"></spine></package>"#;
    let m = kotoba::import::epub::parse_opf_manifest(opf);
    assert_eq!(m.toc_ncx_href, Some("book.ncx".to_string()));
    assert_eq!(m.nav_href, None);
    assert_eq!(m.spine_items, vec!["a2.xhtml".to_string(), "b.xhtml".to_string()]);
}

#[test]
fn epub_chapters_are_titled_and_short_ones_skipped() {
    let toc = vec![("c1.xhtml".to_string(), "第一章".to_string())];
    let html = "<html><body><h1>見出し</h1><p>これは十文字以上の本文です。</p></body></html>";
    let c = kotoba::import::epub::prepare_epub_chapter("本", "c1.xhtml#top", &toc, html, 4).unwrap();
    assert_eq!(c.number, 5);
    assert_eq!(c.chapter_title, "第一章");
    assert_eq!(c.title, "本 — 第一章");
    assert_eq!(c.text, "これは十文字以上の本文です。");
    let short = "<html><body><p>短い</p></body></html>";
    assert!(kotoba::import::epub::prepare_epub_chapter("本", "c2.xhtml", &toc, short, 0).is_none());
    let c = kotoba::import::epub::prepare_epub_chapter("本", "c3.xhtml", &toc, html, 0).unwrap();
    assert_eq!(c.chapter_title, "見出し");
}

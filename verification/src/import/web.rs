//! Importing web pages: the title and main text of a page, and the
//! clean-up of the text taken from it.
use vstd::prelude::*;
use crate::text::{lines, split_lines, trim, trim_str, push_str, to_chars};
use crate::html::{first_element, first_of, selected_text_nodes, select_text_nodes, nodes_view};

verus! {

/// The cleaned text of the first lines, and how many blank lines follow
/// the last non-blank one: each non-blank line trimmed, consecutive lines
/// joined by a line break, and any run of blank lines between them by one
/// blank line.
pub open spec fn cleaned(ls: Seq<Seq<char>>) -> (Seq<char>, nat)
    decreases ls.len(),
{
    if ls.len() == 0 {
        (seq![], 0)
    } else {
        let (r, blanks) = cleaned(ls.drop_last());
        let t = trim(ls.last());
        if t.len() == 0 {
            (r, blanks + 1)
        } else {
            let sep = if r.len() == 0 {
                seq![]
            } else if blanks > 0 {
                "\n\n"@
            } else {
                "\n"@
            };
            (r + sep + t, 0)
        }
    }
}

pub open spec fn clean_text_of(s: Seq<char>) -> Seq<char> {
    cleaned(lines(s)).0
}

/// Clean up extracted text: normalize whitespace, merge blank lines.
pub fn clean_text(text: &str) -> (r: String)
    ensures
        r@ == clean_text_of(text@),
{
    let ls = split_lines(text);
    let ghost lv = ls@.map_values(|x: String| x@);
    let mut result = String::new();
    let mut blank_count: usize = 0;
    let mut i: usize = 0;
    while i < ls.len()
        invariant
            i <= ls@.len(),
            lv == ls@.map_values(|x: String| x@),
            blank_count <= i,
            (result@, blank_count as nat) == cleaned(lv.take(i as int)),
        decreases ls.len() - i,
    {
        assert(lv.take(i + 1).drop_last() == lv.take(i as int));
        assert(lv.take(i + 1).last() == ls@[i as int]@);
        let trimmed = trim_str(ls[i].as_str());
        if trimmed.as_str().is_empty() {
            blank_count += 1;
        } else {
            if !result.as_str().is_empty() {
                if blank_count > 0 {
                    push_str(&mut result, "\n\n");
                } else {
                    push_str(&mut result, "\n");
                }
            }
            push_str(&mut result, trimmed.as_str());
            blank_count = 0;
        }
        i += 1;
    }
    assert(lv.take(ls@.len() as int) == lv);
    result
}


/// The trimmed text of the first element matching `sel`, or nothing.
pub open spec fn first_trimmed_text(html: Seq<char>, sel: Seq<char>) -> Seq<char> {
    match first_element(html, sel, ""@) {
        Some(e) => trim(e.text),
        None => seq![],
    }
}

/// The trimmed `content` of the first `og:title` meta element, or nothing.
pub open spec fn og_title(html: Seq<char>) -> Seq<char> {
    match first_element(html, "meta[property='og:title']"@, "content"@) {
        Some(e) => match e.attr {
            Some(a) => trim(a),
            None => seq![],
        },
        None => seq![],
    }
}

/// A page's title: the first non-empty one of the `<title>` text, the
/// `og:title` meta content and the first `<h1>` text, each trimmed; else
/// "Untitled Web Import".
pub open spec fn page_title(html: Seq<char>) -> Seq<char> {
    if first_trimmed_text(html, "title"@).len() > 0 {
        first_trimmed_text(html, "title"@)
    } else if og_title(html).len() > 0 {
        og_title(html)
    } else if first_trimmed_text(html, "h1"@).len() > 0 {
        first_trimmed_text(html, "h1"@)
    } else {
        "Untitled Web Import"@
    }
}

fn trimmed_first_text(html: &str, sel: &str) -> (r: String)
    ensures
        r@ == first_trimmed_text(html@, sel@),
{
    match first_of(html, sel, "") {
        Some(e) => trim_str(e.text.as_str()),
        None => String::new(),
    }
}

/// Extract the page title from HTML.
pub fn extract_title(html: &str) -> (r: String)
    ensures
        r@ == page_title(html@),
{
    let t = trimmed_first_text(html, "title");
    if !t.as_str().is_empty() {
        return t;
    }
    let og = match first_of(html, "meta[property='og:title']", "content") {
        Some(e) => match e.attr {
            Some(a) => trim_str(a.as_str()),
            None => String::new(),
        },
        None => String::new(),
    };
    if !og.as_str().is_empty() {
        return og;
    }
    let h = trimmed_first_text(html, "h1");
    if !h.as_str().is_empty() {
        return h;
    }
    String::from_str("Untitled Web Import")
}

/// The selectors tried, in order, for a page's main text.
pub open spec fn article_selectors() -> Seq<Seq<char>> {
    seq![
        "article"@,
        "main"@,
        "[role='main']"@,
        ".entry-content"@,
        ".article-body"@,
        ".post-content"@,
        ".content"@,
        "#novel_honbun"@,
        "#novel_p"@,
        "#novel_a"@,
        ".novel_view"@,
    ]
}

/// The text of the first element that matches the first of `sels` whose
/// first element has more than 100 characters of text.
pub open spec fn article_text(html: Seq<char>, sels: Seq<Seq<char>>) -> Option<Seq<char>>
    decreases sels.len(),
{
    if sels.len() == 0 {
        None
    } else {
        match first_element(html, sels[0], ""@) {
            Some(e) => if e.text.len() > 100 {
                Some(e.text)
            } else {
                article_text(html, sels.drop_first())
            },
            None => article_text(html, sels.drop_first()),
        }
    }
}

/// Each non-blank text node, trimmed and followed by a line break.
pub open spec fn nonblank_lines(nodes: Seq<Seq<char>>) -> Seq<char>
    decreases nodes.len(),
{
    if nodes.len() == 0 {
        seq![]
    } else {
        let t = trim(nodes.last());
        nonblank_lines(nodes.drop_last()) + if t.len() > 0 {
            t.push('\n')
        } else {
            seq![]
        }
    }
}

/// The text of the page's `<body>`: its non-blank text nodes, one per line.
pub open spec fn body_text(html: Seq<char>) -> Seq<char> {
    match selected_text_nodes(html, "body"@) {
        Some(g) => if g.len() > 0 {
            nonblank_lines(g[0])
        } else {
            seq![]
        },
        None => seq![],
    }
}

fn extract_body_text(html: &str) -> (r: String)
    ensures
        r@ == body_text(html@),
{
    let mut text = String::new();
    if let Some(g) = select_text_nodes(html, "body") {
        if g.len() > 0 {
            let nodes = &g[0];
            let ghost nv = nodes_view(g@)[0];
            assert(nv == nodes@.map_values(|s: String| s@));
            let mut i: usize = 0;
            while i < nodes.len()
                invariant
                    i <= nodes@.len(),
                    nv == nodes@.map_values(|s: String| s@),
                    text@ == nonblank_lines(nv.take(i as int)),
                decreases nodes.len() - i,
            {
                assert(nv.take(i + 1).drop_last() == nv.take(i as int));
                assert(nv.take(i + 1).last() == nodes@[i as int]@);
                let t = trim_str(nodes[i].as_str());
                if !t.as_str().is_empty() {
                    push_str(&mut text, t.as_str());
                    text.push('\n');
                }
                i += 1;
            }
            assert(nv.take(nodes@.len() as int) == nv);
        }
    }
    text
}

/// Extract the title and the main text of a page: the cleaned text of the
/// first article-like element with more than 100 characters of text, else
/// the cleaned text of the body; an error when the body has no text either.
pub fn extract_article(html: &str, url: &str) -> (r: Result<(String, String), String>)
    ensures
        match r {
            Ok((title, content)) => {
                &&& title@ == page_title(html@)
                &&& match article_text(html@, article_selectors()) {
                    Some(a) => content@ == clean_text_of(a),
                    None => trim(body_text(html@)).len() > 0 && content@ == clean_text_of(
                        body_text(html@),
                    ),
                }
            },
            Err(e) => {
                &&& article_text(html@, article_selectors()) is None
                &&& trim(body_text(html@)).len() == 0
                &&& e@ == "Could not extract meaningful text content from HTML"@
            },
        },
{
    let title = extract_title(html);
    let sels: [&str; 11] = [
        "article",
        "main",
        "[role='main']",
        ".entry-content",
        ".article-body",
        ".post-content",
        ".content",
        "#novel_honbun",
        "#novel_p",
        "#novel_a",
        ".novel_view",
    ];
    let ghost sv = article_selectors();
    assert(sels@.map_values(|s: &str| s@) == sv);
    let mut i: usize = 0;
    assert(sv.skip(0) == sv);
    while i < 11
        invariant
            i <= 11,
            title@ == page_title(html@),
            sv == article_selectors(),
            sels@.map_values(|s: &str| s@) == sv,
            article_text(html@, sv) == article_text(html@, sv.skip(i as int)),
        decreases 11 - i,
    {
        assert(sv.skip(i as int)[0] == sels@[i as int]@);
        assert(sv.skip(i as int).drop_first() == sv.skip(i + 1));
        if let Some(e) = first_of(html, sels[i], "") {
            if to_chars(e.text.as_str()).len() > 100 {
                assert(sv.skip(i as int).len() > 0);
                assert(article_text(html@, sv.skip(i as int)) == Some(e.text@));
                return Ok((title, clean_text(e.text.as_str())));
            }
        }
        i += 1;
    }
    assert(sv.skip(11) == Seq::<Seq<char>>::empty());
    let body = extract_body_text(html);
    if trim_str(body.as_str()).as_str().is_empty() {
        return Err(String::from_str("Could not extract meaningful text content from HTML"));
    }
    Ok((title, clean_text(body.as_str())))
}

} // verus!

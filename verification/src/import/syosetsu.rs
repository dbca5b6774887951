//! Syosetsu (ncode.syosetsu.com) novels: their metadata records, the
//! reading of a novel code from what the user types, and what is read from
//! a novel's pages.
use vstd::prelude::*;
use crate::text::{trim, trim_str, push_str, decimal_digits, strings_view};
use crate::html::{first_element, first_of, selected_elements, select_elements, texts_of, infos_view};
use crate::import::subtitle::{HTML_TAG, regex_valid};
use crate::import::syosetu::{
    ncode_of, ncode_input, ncode_from, chapter_content, chapter_content_of, strs_view, page_url,
    page_url_of, import_title, import_title_of, default_chapter_title, has_novel_body,
};

verus! {

/// Metadata for a Syosetsu novel.
#[derive(Debug, Clone)]
pub struct SyosetsuNovel {
    pub ncode: String,
    pub title: String,
    pub author: String,
    pub total_chapters: usize,
    pub chapters: Vec<SyosetsuChapter>,
}

/// A single chapter from a Syosetsu novel.
#[derive(Debug, Clone)]
pub struct SyosetsuChapter {
    pub number: usize,
    pub title: String,
    pub text_id: Option<i64>,
    pub word_count: usize,
}

/// Extract the ncode from a Syosetsu URL or a bare ncode.
/// Handles input like:
///   https://ncode.syosetsu.com/n1234ab/
///   https://ncode.syosetsu.com/n1234ab/1/
///   n1234ab
pub fn parse_ncode(input: &str) -> (r: Result<String, String>)
    ensures
        match r {
            Ok(code) => ncode_of(input@, "ncode.syosetsu.com/"@) == Some(code@),
            Err(e) => ncode_of(input@, "ncode.syosetsu.com/"@) is None && e@
                == "Could not parse ncode from: "@ + ncode_input(input@),
        },
{
    proof {
        reveal_strlit("ncode.syosetsu.com/");
    }
    ncode_from(input, "ncode.syosetsu.com/")
}


/// The trimmed text of the first element matching `sel`, if there is one.
pub open spec fn first_trimmed(html: Seq<char>, sel: Seq<char>) -> Option<Seq<char>> {
    match first_element(html, sel, ""@) {
        Some(e) => Some(trim(e.text)),
        None => None,
    }
}

fn first_trimmed_exec(html: &str, sel: &str) -> (r: Option<String>)
    ensures
        match r {
            Some(t) => first_trimmed(html@, sel@) == Some(t@),
            None => first_trimmed(html@, sel@) is None,
        },
{
    match first_of(html, sel, "") {
        Some(e) => Some(trim_str(e.text.as_str())),
        None => None,
    }
}

/// The trimmed texts of all elements matching `sel`.
pub open spec fn trimmed_texts_of(html: Seq<char>, sel: Seq<char>) -> Seq<Seq<char>> {
    match selected_elements(html, sel, ""@) {
        Some(v) => texts_of(v).map_values(|t: Seq<char>| trim(t)),
        None => seq![],
    }
}

/// Whether `c` is a freshly listed chapter: numbered `number`, titled
/// `title`, not imported yet and without a word count.
pub open spec fn is_listed_chapter(c: SyosetsuChapter, number: int, title: Seq<char>) -> bool {
    &&& c.number == number
    &&& c.title@ == title
    &&& c.text_id is None
    &&& c.word_count == 0
}

/// A novel's title from its table of contents, or "Novel" and its code.
pub open spec fn novel_title_of(html: Seq<char>, ncode: Seq<char>) -> Seq<char> {
    match first_trimmed(html, ".novel_title"@) {
        Some(t) => t,
        None => "Novel "@ + ncode,
    }
}

/// A novel's author from its table of contents, or nothing.
pub open spec fn novel_author_of(html: Seq<char>) -> Seq<char> {
    match first_trimmed(html, ".novel_writername a"@) {
        Some(t) => t,
        None => seq![],
    }
}

/// Read the novel's metadata (title, author, chapter list) from its
/// table-of-contents page: every chapter link is a chapter, numbered from
/// 1; a page without chapter links but with a novel body is a one-page
/// novel with one chapter titled after the novel.
pub fn novel_from_toc(ncode: &str, html: &str) -> (r: SyosetsuNovel)
    ensures
        r.ncode@ == ncode@,
        r.title@ == novel_title_of(html@, ncode@),
        r.author@ == novel_author_of(html@),
        r.total_chapters == r.chapters@.len(),
        ({
            let ts = trimmed_texts_of(html@, ".subtitle a"@);
            if ts.len() > 0 {
                &&& r.chapters@.len() == ts.len()
                &&& forall|k: int|
                    0 <= k < ts.len() ==> is_listed_chapter(#[trigger] r.chapters@[k], k + 1, ts[k])
            } else if has_novel_body(html@) {
                &&& r.chapters@.len() == 1
                &&& is_listed_chapter(r.chapters@[0], 1, novel_title_of(html@, ncode@))
            } else {
                r.chapters@.len() == 0
            }
        }),
{
    let title = match first_trimmed_exec(html, ".novel_title") {
        Some(t) => t,
        None => {
            let mut t = String::from_str("Novel ");
            push_str(&mut t, ncode);
            t
        },
    };
    let author = match first_trimmed_exec(html, ".novel_writername a") {
        Some(t) => t,
        None => String::new(),
    };
    let mut chapters: Vec<SyosetsuChapter> = Vec::new();
    if let Some(v) = select_elements(html, ".subtitle a", "") {
        let ghost ts = texts_of(infos_view(v@)).map_values(|t: Seq<char>| trim(t));
        let mut i: usize = 0;
        while i < v.len()
            invariant
                i <= v@.len(),
                ts == texts_of(infos_view(v@)).map_values(|t: Seq<char>| trim(t)),
                chapters@.len() == i,
                forall|k: int| 0 <= k < i ==> is_listed_chapter(#[trigger] chapters@[k], k + 1, ts[k]),
            decreases v.len() - i,
        {
            assert(ts[i as int] == trim(v@[i as int].text@));
            let t = trim_str(v[i].text.as_str());
            chapters.push(SyosetsuChapter { number: i + 1, title: t, text_id: None, word_count: 0 });
            i += 1;
        }
    }
    if chapters.len() == 0 {
        if let Some(_) = first_of(html, "#novel_honbun", "") {
            chapters.push(
                SyosetsuChapter { number: 1, title: title.clone(), text_id: None, word_count: 0 },
            );
        }
    }
    let total_chapters = chapters.len();
    SyosetsuNovel { ncode: String::from_str(ncode), title, author, total_chapters, chapters }
}

/// A chapter page's title, or "Chapter" and its number.
pub open spec fn chapter_title_of(html: Seq<char>, chapter: nat) -> Seq<char> {
    match first_trimmed(html, ".novel_subtitle"@) {
        Some(t) => t,
        None => default_chapter_title(chapter),
    }
}

/// The selectors of a chapter's preface, body and afterword.
pub open spec fn preface_selectors() -> Seq<Seq<char>> {
    seq!["#novel_p"@]
}

pub open spec fn body_selectors() -> Seq<Seq<char>> {
    seq!["#novel_honbun"@]
}

pub open spec fn afterword_selectors() -> Seq<Seq<char>> {
    seq!["#novel_a"@]
}

/// What is stored of a fetched chapter page: its title and its text
/// (preface, body, afterword); or the error when the page has no text (or
/// the tag pattern is refused).
pub fn prepare_chapter(ncode: &str, chapter: usize, html: &str) -> (r: Result<(String, String), String>)
    ensures
        match r {
            Ok((title, content)) => {
                &&& regex_valid(HTML_TAG@)
                &&& title@ == import_title_of(chapter_title_of(html@, chapter as nat), chapter as nat)
                &&& content@ == chapter_content_of(
                    html@,
                    preface_selectors(),
                    body_selectors(),
                    afterword_selectors(),
                )
                &&& trim(content@).len() > 0
            },
            Err(e) => {
                ||| !regex_valid(HTML_TAG@) && e@ == "The HTML tag pattern does not compile"@
                ||| regex_valid(HTML_TAG@) && trim(
                    chapter_content_of(
                        html@,
                        preface_selectors(),
                        body_selectors(),
                        afterword_selectors(),
                    ),
                ).len() == 0 && e@ == "Could not extract chapter text from "@ + page_url_of(
                    "https://ncode.syosetsu.com/"@,
                    ncode@,
                    chapter as nat,
                )
            },
        },
{
    let p: [&str; 1] = ["#novel_p"];
    let b: [&str; 1] = ["#novel_honbun"];
    let a: [&str; 1] = ["#novel_a"];
    assert(strs_view(p@) == preface_selectors());
    assert(strs_view(b@) == body_selectors());
    assert(strs_view(a@) == afterword_selectors());
    let content = match chapter_content(html, &p, &b, &a) {
        Some(c) => c,
        None => return Err(String::from_str("The HTML tag pattern does not compile")),
    };
    if trim_str(content.as_str()).as_str().is_empty() {
        let mut e = String::from_str("Could not extract chapter text from ");
        let url = page_url("https://ncode.syosetsu.com/", ncode, chapter);
        push_str(&mut e, url.as_str());
        return Err(e);
    }
    let t = match first_trimmed_exec(html, ".novel_subtitle") {
        Some(t) => t,
        None => {
            let mut t = String::from_str("Chapter ");
            crate::text::push_decimal(&mut t, chapter);
            t
        },
    };
    Ok((import_title(t.as_str(), chapter), content))
}

} // verus!

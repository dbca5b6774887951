//! Importing EPUB books: the package file's manifest and spine, the table
//! of contents, and the title and text given to each chapter.
use vstd::prelude::*;
use crate::text::{
    to_chars, string_of_range, str_eq, push_decimal, decimal_digits, trim, trim_str, join, join_strings,
    strings_view, contains_seq, str_contains, push_str,
};
use crate::tokenizer::nonblank_trimmed;
use crate::html::{
    ElementInfoView, selected_elements, selected_text_nodes, selected_pairs, select_elements,
    select_text_nodes, select_pairs, infos_view, nodes_view, pairs_view, first_element_text, first_text,
    texts_of, trimmed_nonblank_texts, first_element, first_of, selected_attrs, select_attrs,
    attr_rows_view,
};

verus! {

/// The position of the first `#` in `s` at or after `from`, or `s.len()`.
pub open spec fn first_hash(s: Seq<char>, from: int) -> int
    decreases s.len() - from,
{
    if from < 0 || from >= s.len() {
        s.len() as int
    } else if s[from] == '#' {
        from
    } else {
        first_hash(s, from + 1)
    }
}

proof fn lemma_first_hash(s: Seq<char>, from: int)
    requires
        0 <= from <= s.len(),
    ensures
        from <= first_hash(s, from) <= s.len(),
    decreases s.len() - from,
{
    if from < s.len() && s[from] != '#' {
        lemma_first_hash(s, from + 1);
    }
}

/// A reference without its fragment: the part before the first `#`.
pub open spec fn without_fragment(href: Seq<char>) -> Seq<char> {
    href.take(first_hash(href, 0))
}

pub open spec fn toc_view(v: Seq<(String, String)>) -> Seq<(Seq<char>, Seq<char>)> {
    v.map_values(|e: (String, String)| (e.0@, e.1@))
}

/// The title listed for `href` among the first `n` table-of-contents
/// entries; a later entry for the same reference replaces an earlier one.
pub open spec fn toc_title_for(toc: Seq<(Seq<char>, Seq<char>)>, href: Seq<char>, n: int) -> Option<Seq<char>>
    decreases n,
{
    if n <= 0 || n > toc.len() {
        None
    } else if toc[n - 1].0 == href {
        Some(toc[n - 1].1)
    } else {
        toc_title_for(toc, href, n - 1)
    }
}

/// The title of a chapter: its table-of-contents title when it has a
/// non-empty one, else its non-empty heading, else "Chapter N".
pub open spec fn chapter_title(
    href: Seq<char>,
    toc: Seq<(Seq<char>, Seq<char>)>,
    heading: Option<Seq<char>>,
    chapter_num: nat,
) -> Seq<char> {
    match toc_title_for(toc, without_fragment(href), toc.len() as int) {
        Some(t) if t.len() > 0 => t,
        _ => match heading {
            Some(h) if h.len() > 0 => h,
            _ => "Chapter "@ + decimal_digits(chapter_num),
        },
    }
}

fn find_toc_title(toc_titles: &Vec<(String, String)>, href: &str) -> (r: Option<String>)
    ensures
        match r {
            Some(t) => toc_title_for(toc_view(toc_titles@), href@, toc_titles@.len() as int) == Some(t@),
            None => toc_title_for(toc_view(toc_titles@), href@, toc_titles@.len() as int) is None,
        },
{
    let ghost tv = toc_view(toc_titles@);
    let mut n: usize = toc_titles.len();
    while n > 0
        invariant
            n <= toc_titles@.len(),
            tv == toc_view(toc_titles@),
            toc_title_for(tv, href@, toc_titles@.len() as int) == toc_title_for(tv, href@, n as int),
        decreases n,
    {
        assert(tv[n - 1] == (toc_titles@[n - 1].0@, toc_titles@[n - 1].1@));
        if str_eq(toc_titles[n - 1].0.as_str(), href) {
            return Some(toc_titles[n - 1].1.clone());
        }
        n -= 1;
    }
    None
}

/// Resolve the best chapter title from available sources.
/// Priority: table-of-contents title > heading from content > fallback "Chapter N".
/// `toc_titles` lists (reference, title) pairs of the table of contents.
pub fn resolve_chapter_title(
    item_href: &str,
    toc_titles: &Vec<(String, String)>,
    heading_title: Option<&str>,
    chapter_num: usize,
) -> (r: String)
    ensures
        r@ == chapter_title(
            item_href@,
            toc_view(toc_titles@),
            match heading_title {
                Some(h) => Some(h@),
                None => None,
            },
            chapter_num as nat,
        ),
{
    let v = to_chars(item_href);
    let mut k: usize = 0;
    while k < v.len() && v[k] != '#'
        invariant
            k <= v@.len(),
            first_hash(v@, 0) == first_hash(v@, k as int),
        decreases v.len() - k,
    {
        k += 1;
    }
    proof {
        lemma_first_hash(v@, 0);
    }
    let href_base = string_of_range(&v, 0, k);
    assert(v@.subrange(0, k as int) == v@.take(k as int));
    match find_toc_title(toc_titles, href_base.as_str()) {
        Some(t) => {
            if !t.as_str().is_empty() {
                return t;
            }
        },
        None => {},
    }
    match heading_title {
        Some(h) => {
            if !h.is_empty() {
                return String::from_str(h);
            }
        },
        None => {},
    }
    let mut title = String::from_str("Chapter ");
    push_decimal(&mut title, chapter_num);
    title
}

// ─── Reading chapter files ──────────────────────────────────────────

/// A chapter's heading: the trimmed text of the first h1, else of the
/// first h2, else of the first h3, when that is not empty.
pub open spec fn chapter_heading(html: Seq<char>) -> Option<Seq<char>> {
    let found = match first_element_text(html, "h1"@) {
        Some(t) => Some(trim(t)),
        None => match first_element_text(html, "h2"@) {
            Some(t) => Some(trim(t)),
            None => match first_element_text(html, "h3"@) {
                Some(t) => Some(trim(t)),
                None => None,
            },
        },
    };
    match found {
        Some(t) => if t.len() > 0 {
            Some(t)
        } else {
            None
        },
        None => None,
    }
}

/// The non-blank paragraphs of the body, trimmed.
pub open spec fn body_paragraphs(html: Seq<char>) -> Seq<Seq<char>> {
    match selected_elements(html, "body p"@, ""@) {
        Some(v) => nonblank_trimmed(texts_of(v)),
        None => seq![],
    }
}

/// The text nodes of the document's body (of the whole document when the
/// body selector does not parse), joined by line breaks.
pub open spec fn body_text_nodes(html: Seq<char>) -> Seq<char> {
    let nodes = match selected_text_nodes(html, "body"@) {
        Some(v) => v,
        None => match selected_text_nodes(html, "html"@) {
            Some(w) => w,
            None => seq![],
        },
    };
    if nodes.len() > 0 {
        join(nodes[0], "\n"@)
    } else {
        seq![]
    }
}

/// The text of a chapter file: its body's paragraphs separated by blank
/// lines, or, when it has none, the body's text nodes one per line; trimmed.
pub open spec fn chapter_body_text(html: Seq<char>) -> Seq<char> {
    let paras = body_paragraphs(html);
    trim(
        if paras.len() > 0 {
            join(paras, "\n\n"@)
        } else {
            body_text_nodes(html)
        },
    )
}

/// Extract the chapter title (from headings) and text from an XHTML chapter
/// file: (heading, body text).
pub fn extract_chapter_text(html_content: &str) -> (r: (Option<String>, String))
    ensures
        match r.0 {
            Some(h) => chapter_heading(html_content@) == Some(h@),
            None => chapter_heading(html_content@) is None,
        },
        r.1@ == chapter_body_text(html_content@),
{
    let found = match first_text(html_content, "h1") {
        Some(t) => Some(trim_str(t.as_str())),
        None => match first_text(html_content, "h2") {
            Some(t) => Some(trim_str(t.as_str())),
            None => match first_text(html_content, "h3") {
                Some(t) => Some(trim_str(t.as_str())),
                None => None,
            },
        },
    };
    let heading = match found {
        Some(t) => if t.as_str().is_empty() {
            None
        } else {
            Some(t)
        },
        None => None,
    };
    let paras = match select_elements(html_content, "body p", "") {
        Some(v) => trimmed_nonblank_texts(&v),
        None => Vec::new(),
    };
    proof {
        if selected_elements(html_content@, "body p"@, ""@) is None {
            assert(strings_view(paras@) =~= Seq::<Seq<char>>::empty());
        }
    }
    let text = if paras.len() > 0 {
        join_strings(&paras, "\n\n")
    } else {
        let nodes = match select_text_nodes(html_content, "body") {
            Some(v) => v,
            None => match select_text_nodes(html_content, "html") {
                Some(w) => w,
                None => Vec::new(),
            },
        };
        proof {
            if selected_text_nodes(html_content@, "body"@) is None && selected_text_nodes(
                html_content@,
                "html"@,
            ) is None {
                assert(nodes_view(nodes@) =~= Seq::<Seq<Seq<char>>>::empty());
            }
        }
        if nodes.len() > 0 {
            assert(nodes_view(nodes@)[0] == strings_view(nodes@[0]@));
            join_strings(&nodes[0], "\n")
        } else {
            String::new()
        }
    };
    (heading, trim_str(text.as_str()))
}

// ─── Tables of contents ─────────────────────────────────────────────

/// The (reference, title) entries of NAV links: each link with an href and
/// a non-blank title, the reference without its fragment when not empty.
pub open spec fn nav_entries(v: Seq<ElementInfoView>) -> Seq<(Seq<char>, Seq<char>)>
    decreases v.len(),
{
    if v.len() == 0 {
        seq![]
    } else {
        let rest = nav_entries(v.drop_last());
        let e = v.last();
        match e.attr {
            Some(href) => {
                let title = trim(e.text);
                let base = without_fragment(href);
                if title.len() > 0 && base.len() > 0 {
                    rest.push((base, title))
                } else {
                    rest
                }
            },
            None => rest,
        }
    }
}

/// The (reference, title) entries of an EPUB3 NAV document's links.
pub open spec fn nav_toc(nav: Seq<char>) -> Seq<(Seq<char>, Seq<char>)> {
    match selected_elements(nav, "nav a[href]"@, "href"@) {
        Some(v) => nav_entries(v),
        None => seq![],
    }
}

/// The (reference, title) entries of NCX navigation points: each point
/// with a label text and a content source, the label trimmed and not blank,
/// the source without its fragment and not empty.
pub open spec fn ncx_entries(v: Seq<(Option<Seq<char>>, Option<Seq<char>>)>) -> Seq<(Seq<char>, Seq<char>)>
    decreases v.len(),
{
    if v.len() == 0 {
        seq![]
    } else {
        let rest = ncx_entries(v.drop_last());
        match v.last() {
            (Some(t), Some(src)) => {
                let title = trim(t);
                let base = without_fragment(src);
                if title.len() > 0 && base.len() > 0 {
                    rest.push((base, title))
                } else {
                    rest
                }
            },
            _ => rest,
        }
    }
}

/// The (reference, title) entries of an NCX table of contents.
pub open spec fn ncx_toc(ncx: Seq<char>) -> Seq<(Seq<char>, Seq<char>)> {
    match selected_pairs(ncx, "navPoint"@, "navLabel text"@, "content"@, "src"@) {
        Some(v) => ncx_entries(v),
        None => seq![],
    }
}

fn fragment_free(href: &str) -> (r: String)
    ensures
        r@ == without_fragment(href@),
{
    let v = to_chars(href);
    let mut k: usize = 0;
    while k < v.len() && v[k] != '#'
        invariant
            k <= v@.len(),
            first_hash(v@, 0) == first_hash(v@, k as int),
        decreases v.len() - k,
    {
        k += 1;
    }
    proof {
        lemma_first_hash(v@, 0);
    }
    assert(v@.subrange(0, k as int) == v@.take(k as int));
    string_of_range(&v, 0, k)
}

fn push_entry(out: &mut Vec<(String, String)>, href: &str, text: &str)
    ensures
        toc_view(final(out)@) == {
            let title = trim(text@);
            let base = without_fragment(href@);
            if title.len() > 0 && base.len() > 0 {
                toc_view(old(out)@).push((base, title))
            } else {
                toc_view(old(out)@)
            }
        },
{
    let title = trim_str(text);
    let base = fragment_free(href);
    if !title.as_str().is_empty() && !base.as_str().is_empty() {
        let ghost prev = toc_view(out@);
        let ghost entry = (base@, title@);
        out.push((base, title));
        assert(toc_view(out@) == prev.push(entry));
    }
}

/// Parse an EPUB3 NAV document (nav.xhtml) into (reference, title) entries.
pub fn parse_nav_toc(nav_xml: &str) -> (r: Vec<(String, String)>)
    ensures
        toc_view(r@) == nav_toc(nav_xml@),
{
    let mut out: Vec<(String, String)> = Vec::new();
    match select_elements(nav_xml, "nav a[href]", "href") {
        Some(v) => {
            let ghost iv = infos_view(v@);
            let mut i: usize = 0;
            while i < v.len()
                invariant
                    i <= v@.len(),
                    iv == infos_view(v@),
                    toc_view(out@) == nav_entries(iv.take(i as int)),
                decreases v.len() - i,
            {
                assert(iv.take(i + 1).drop_last() == iv.take(i as int));
                assert(iv.take(i + 1).last() == v@[i as int]@);
                match &v[i].attr {
                    Some(href) => push_entry(&mut out, href.as_str(), v[i].text.as_str()),
                    None => {},
                }
                i += 1;
            }
            assert(iv.take(v@.len() as int) == iv);
        },
        None => {
            assert(toc_view(out@) =~= Seq::<(Seq<char>, Seq<char>)>::empty());
        },
    }
    out
}

/// Parse an NCX table of contents (toc.ncx) into (reference, title) entries.
pub fn parse_ncx_toc(ncx_xml: &str) -> (r: Vec<(String, String)>)
    ensures
        toc_view(r@) == ncx_toc(ncx_xml@),
{
    let mut out: Vec<(String, String)> = Vec::new();
    match select_pairs(ncx_xml, "navPoint", "navLabel text", "content", "src") {
        Some(v) => {
            let ghost pv = pairs_view(v@);
            let mut i: usize = 0;
            while i < v.len()
                invariant
                    i <= v@.len(),
                    pv == pairs_view(v@),
                    toc_view(out@) == ncx_entries(pv.take(i as int)),
                decreases v.len() - i,
            {
                assert(pv.take(i + 1).drop_last() == pv.take(i as int));
                assert(pv.take(i + 1).last() == pv[i as int]);
                match (&v[i].0, &v[i].1) {
                    (Some(t), Some(src)) => push_entry(&mut out, src.as_str(), t.as_str()),
                    _ => {},
                }
                i += 1;
            }
            assert(pv.take(v@.len() as int) == pv);
        },
        None => {
            assert(toc_view(out@) =~= Seq::<(Seq<char>, Seq<char>)>::empty());
        },
    }
    out
}

/// The directory of the package file, with its trailing `/` (empty when the
/// package file is at the top of the archive).
pub open spec fn opf_dir_of(opf_path: Seq<char>) -> Seq<char> {
    match last_slash(opf_path, opf_path.len() as int) {
        Some(k) => opf_path.take(k + 1),
        None => seq![],
    }
}

/// The position of the last `/` before `end`, if any.
pub open spec fn last_slash(s: Seq<char>, end: int) -> Option<int>
    decreases end,
{
    if end <= 0 || end > s.len() {
        None
    } else if s[end - 1] == '/' {
        Some(end - 1)
    } else {
        last_slash(s, end - 1)
    }
}

/// The directory part of the package file's path, with a trailing `/`.
pub fn opf_dir(opf_path: &str) -> (r: String)
    ensures
        r@ == opf_dir_of(opf_path@),
{
    let v = to_chars(opf_path);
    let mut end: usize = v.len();
    while end > 0 && v[end - 1] != '/'
        invariant
            end <= v@.len(),
            last_slash(v@, v@.len() as int) == last_slash(v@, end as int),
        decreases end,
    {
        end -= 1;
    }
    if end == 0 {
        return String::new();
    }
    assert(v@.subrange(0, end as int) == v@.take(end as int));
    string_of_range(&v, 0, end)
}


// ─── Package file ───────────────────────────────────────────────────

/// The package file named by the container's first `rootfile`, or
/// "content.opf".
pub open spec fn opf_path_of(container: Seq<char>) -> Seq<char> {
    match first_element(container, "rootfile"@, "full-path"@) {
        Some(e) => match e.attr {
            Some(p) => p,
            None => "content.opf"@,
        },
        None => "content.opf"@,
    }
}

/// The path of the package file, read from `META-INF/container.xml`.
pub fn opf_path_from_container(container_xml: &str) -> (r: String)
    ensures
        r@ == opf_path_of(container_xml@),
{
    match first_of(container_xml, "rootfile", "full-path") {
        Some(e) => match e.attr {
            Some(p) => p,
            None => String::from_str("content.opf"),
        },
        None => String::from_str("content.opf"),
    }
}

/// The attributes read from each manifest item: id, href, media type,
/// properties.
pub open spec fn item_attrs() -> Seq<Seq<char>> {
    seq!["id"@, "href"@, "media-type"@, "properties"@]
}

/// A manifest item that has an id and an href: (id, href, media type,
/// properties), a missing media type or properties read as empty.
pub open spec fn item_entry(row: Seq<Option<Seq<char>>>) -> Option<
    (Seq<char>, Seq<char>, Seq<char>, Seq<char>),
> {
    match (row[0], row[1]) {
        (Some(id), Some(href)) => Some(
            (
                id,
                href,
                match row[2] {
                    Some(m) => m,
                    None => seq![],
                },
                match row[3] {
                    Some(p) => p,
                    None => seq![],
                },
            ),
        ),
        _ => None,
    }
}

/// The (id, href) of the manifest items with HTML or XML content, in order.
pub open spec fn manifest_entries(rows: Seq<Seq<Option<Seq<char>>>>) -> Seq<(Seq<char>, Seq<char>)>
    decreases rows.len(),
{
    if rows.len() == 0 {
        seq![]
    } else {
        manifest_entries(rows.drop_last()) + match item_entry(rows.last()) {
            Some(e) => if contains_seq(e.2, "html"@) || contains_seq(e.2, "xml"@) {
                seq![(e.0, e.1)]
            } else {
                seq![]
            },
            None => seq![],
        }
    }
}

/// The href of the last item that is an NCX table of contents.
pub open spec fn ncx_item(rows: Seq<Seq<Option<Seq<char>>>>) -> Option<Seq<char>>
    decreases rows.len(),
{
    if rows.len() == 0 {
        None
    } else {
        match item_entry(rows.last()) {
            Some(e) => if e.2 == "application/x-dtbncx+xml"@ {
                Some(e.1)
            } else {
                ncx_item(rows.drop_last())
            },
            None => ncx_item(rows.drop_last()),
        }
    }
}

/// The href of the last item whose properties mention "nav".
pub open spec fn nav_item(rows: Seq<Seq<Option<Seq<char>>>>) -> Option<Seq<char>>
    decreases rows.len(),
{
    if rows.len() == 0 {
        None
    } else {
        match item_entry(rows.last()) {
            Some(e) => if contains_seq(e.3, "nav"@) {
                Some(e.1)
            } else {
                nav_item(rows.drop_last())
            },
            None => nav_item(rows.drop_last()),
        }
    }
}

/// The href of the first item with id `id` (none when it has no href).
pub open spec fn href_of_id(rows: Seq<Seq<Option<Seq<char>>>>, id: Seq<char>) -> Option<Seq<char>>
    decreases rows.len(),
{
    if rows.len() == 0 {
        None
    } else if rows[0][0] == Some(id) {
        rows[0][1]
    } else {
        href_of_id(rows.drop_first(), id)
    }
}

/// The href last given to `id` in the manifest.
pub open spec fn manifest_href(entries: Seq<(Seq<char>, Seq<char>)>, id: Seq<char>) -> Option<Seq<char>>
    decreases entries.len(),
{
    if entries.len() == 0 {
        None
    } else if entries.last().0 == id {
        Some(entries.last().1)
    } else {
        manifest_href(entries.drop_last(), id)
    }
}

/// The hrefs of the spine's item references that the manifest knows.
pub open spec fn spine_hrefs(refs: Seq<Seq<Option<Seq<char>>>>, entries: Seq<(Seq<char>, Seq<char>)>) -> Seq<
    Seq<char>,
>
    decreases refs.len(),
{
    if refs.len() == 0 {
        seq![]
    } else {
        spine_hrefs(refs.drop_last(), entries) + match refs.last()[0] {
            Some(idref) => match manifest_href(entries, idref) {
                Some(h) => seq![h],
                None => seq![],
            },
            None => seq![],
        }
    }
}

/// Whether the entry at `i` is the last one with its id.
pub open spec fn last_of_its_id(entries: Seq<(Seq<char>, Seq<char>)>, i: int) -> bool {
    forall|j: int| i < j < entries.len() ==> #[trigger] entries[j].0 != entries[i].0
}

/// The hrefs of the first `n` manifest entries that are the last with their id:
/// one href per id, the one the manifest ends up with.
pub open spec fn manifest_hrefs(entries: Seq<(Seq<char>, Seq<char>)>, n: int) -> Seq<Seq<char>>
    decreases n,
{
    if n <= 0 {
        seq![]
    } else {
        manifest_hrefs(entries, n - 1) + if last_of_its_id(entries, n - 1) {
            seq![entries[n - 1].1]
        } else {
            seq![]
        }
    }
}

/// What the package file says of the book: its reading order (the spine's
/// documents, or every manifest document when the spine names none), and
/// where its NCX and NAV tables of contents are.
pub struct OpfManifest {
    pub spine_items: Vec<String>,
    pub toc_ncx_href: Option<String>,
    pub nav_href: Option<String>,
}

pub open spec fn opt_view(o: Option<String>) -> Option<Seq<char>> {
    match o {
        Some(s) => Some(s@),
        None => None,
    }
}

/// The rows of `sel` elements' `attrs`, none when the selector is refused.
pub open spec fn attr_rows(html: Seq<char>, sel: Seq<char>, attrs: Seq<Seq<char>>) -> Seq<Seq<Option<Seq<char>>>> {
    match selected_attrs(html, sel, attrs) {
        Some(r) => r,
        None => seq![],
    }
}

/// The toc attribute of the package's first spine element.
pub open spec fn spine_toc(opf: Seq<char>) -> Option<Seq<char>> {
    let rows = attr_rows(opf, "spine"@, seq!["toc"@]);
    if rows.len() > 0 {
        rows[0][0]
    } else {
        None
    }
}

/// The NCX table of contents: the manifest's NCX item, else the item the
/// spine's toc attribute names.
pub open spec fn opf_ncx(opf: Seq<char>) -> Option<Seq<char>> {
    let rows = attr_rows(opf, "item"@, item_attrs());
    match ncx_item(rows) {
        Some(h) => Some(h),
        None => match spine_toc(opf) {
            Some(id) => href_of_id(rows, id),
            None => None,
        },
    }
}

/// The reading order of the book.
pub open spec fn opf_spine(opf: Seq<char>) -> Seq<Seq<char>> {
    let entries = manifest_entries(attr_rows(opf, "item"@, item_attrs()));
    let spine = spine_hrefs(attr_rows(opf, "itemref"@, seq!["idref"@]), entries);
    if spine.len() > 0 {
        spine
    } else {
        manifest_hrefs(entries, entries.len() as int)
    }
}

fn rows_of(html: &str, sel: &str, attrs: &[&str]) -> (r: Vec<Vec<Option<String>>>)
    ensures
        attr_rows_view(r@) == attr_rows(html@, sel@, attrs@.map_values(|a: &str| a@)),
        forall|i: int| 0 <= i < r@.len() ==> #[trigger] r@[i]@.len() == attrs@.len(),
{
    match select_attrs(html, sel, attrs) {
        Some(v) => v,
        None => {
            let v: Vec<Vec<Option<String>>> = Vec::new();
            assert(attr_rows_view(v@) =~= Seq::<Seq<Option<Seq<char>>>>::empty());
            v
        },
    }
}

fn opt_clone(o: &Option<String>) -> (r: Option<String>)
    ensures
        opt_view(r) == opt_view(*o),
{
    match o {
        Some(s) => Some(s.clone()),
        None => None,
    }
}

fn manifest_of(rows: &Vec<Vec<Option<String>>>) -> (r: Vec<(String, String)>)
    requires
        forall|i: int| 0 <= i < rows@.len() ==> #[trigger] rows@[i]@.len() == 4,
    ensures
        toc_view(r@) == manifest_entries(attr_rows_view(rows@)),
{
    let ghost rv = attr_rows_view(rows@);
    let mut out: Vec<(String, String)> = Vec::new();
    let mut i: usize = 0;
    while i < rows.len()
        invariant
            i <= rows@.len(),
            rv == attr_rows_view(rows@),
            forall|k: int| 0 <= k < rows@.len() ==> #[trigger] rows@[k]@.len() == 4,
            toc_view(out@) == manifest_entries(rv.take(i as int)),
        decreases rows.len() - i,
    {
        assert(rv.take(i + 1).drop_last() == rv.take(i as int));
        assert(rv.take(i + 1).last() == rv[i as int]);
        let row = &rows[i];
        assert(rows@[i as int]@.len() == 4);
        let ghost r = rv[i as int];
        assert(r[0] == opt_view(row@[0]) && r[1] == opt_view(row@[1]) && r[2] == opt_view(row@[2]) && r[3]
            == opt_view(row@[3]));
        if let (Some(id), Some(href)) = (&row[0], &row[1]) {
            let mt = match &row[2] {
                Some(m) => m.clone(),
                None => String::new(),
            };
            if str_contains(mt.as_str(), "html") || str_contains(mt.as_str(), "xml") {
                let ghost prev = toc_view(out@);
                out.push((id.clone(), href.clone()));
                assert(toc_view(out@) == prev.push((id@, href@)));
            }
        }
        i += 1;
    }
    assert(rv.take(rows@.len() as int) == rv);
    out
}

/// Read the manifest and spine of the package file: the reading order, and
/// where the NCX and NAV tables of contents are.
pub fn parse_opf_manifest(opf_xml: &str) -> (r: OpfManifest)
    ensures
        strings_view(r.spine_items@) == opf_spine(opf_xml@),
        opt_view(r.toc_ncx_href) == opf_ncx(opf_xml@),
        opt_view(r.nav_href) == nav_item(attr_rows(opf_xml@, "item"@, item_attrs())),
{
    let item_names: [&str; 4] = ["id", "href", "media-type", "properties"];
    assert(item_names@.map_values(|a: &str| a@) == item_attrs());
    let rows = rows_of(opf_xml, "item", &item_names);
    let ghost rv = attr_rows_view(rows@);
    // the NCX and NAV items: the last ones found
    let mut ncx: Option<String> = None;
    let mut nav: Option<String> = None;
    let mut i: usize = rows.len();
    proof {
        reveal_strlit("application/x-dtbncx+xml");
    }
    assert(rv.take(rows@.len() as int) == rv);
    while i > 0
        invariant
            i <= rows@.len(),
            rv == attr_rows_view(rows@),
            forall|k: int| 0 <= k < rows@.len() ==> #[trigger] rows@[k]@.len() == 4,
            ncx is None ==> ncx_item(rv) == ncx_item(rv.take(i as int)),
            ncx is Some ==> ncx_item(rv) == opt_view(ncx),
            nav is None ==> nav_item(rv) == nav_item(rv.take(i as int)),
            nav is Some ==> nav_item(rv) == opt_view(nav),
        decreases i,
    {
        assert(rv.take(i as int).drop_last() == rv.take(i - 1));
        assert(rv.take(i as int).last() == rv[i - 1]);
        let row = &rows[i - 1];
        assert(rows@[i - 1]@.len() == 4);
        let ghost r = rv[i - 1];
        assert(r[0] == opt_view(row@[0]) && r[1] == opt_view(row@[1]) && r[2] == opt_view(row@[2]) && r[3]
            == opt_view(row@[3]));
        if let (Some(_), Some(href)) = (&row[0], &row[1]) {
            let mt = match &row[2] {
                Some(m) => m.clone(),
                None => String::new(),
            };
            let props = match &row[3] {
                Some(p) => p.clone(),
                None => String::new(),
            };
            if ncx.is_none() && str_eq(mt.as_str(), "application/x-dtbncx+xml") {
                ncx = Some(href.clone());
            }
            if nav.is_none() && str_contains(props.as_str(), "nav") {
                nav = Some(href.clone());
            }
        }
        i -= 1;
    }
    assert(rv.take(rows@.len() as int) == rv);
    assert(rv.take(0) == Seq::<Seq<Option<Seq<char>>>>::empty());
    // a spine that names its NCX by id
    if ncx.is_none() {
        let spine_names: [&str; 1] = ["toc"];
        assert(spine_names@.map_values(|a: &str| a@) == seq!["toc"@]);
        let spine = rows_of(opf_xml, "spine", &spine_names);
        if spine.len() > 0 {
            assert(spine@[0]@.len() == 1);
            assert(attr_rows_view(spine@)[0][0] == opt_view(spine@[0]@[0]));
            if let Some(toc_id) = &spine[0][0] {
                ncx = href_for_id(&rows, toc_id.as_str());
            }
        }
    }
    // the reading order
    let entries = manifest_of(&rows);
    let ghost ev = toc_view(entries@);
    let ref_names: [&str; 1] = ["idref"];
    assert(ref_names@.map_values(|a: &str| a@) == seq!["idref"@]);
    let refs = rows_of(opf_xml, "itemref", &ref_names);
    let ghost fv = attr_rows_view(refs@);
    let mut spine_items: Vec<String> = Vec::new();
    let mut k: usize = 0;
    while k < refs.len()
        invariant
            k <= refs@.len(),
            fv == attr_rows_view(refs@),
            ev == toc_view(entries@),
            forall|m: int| 0 <= m < refs@.len() ==> #[trigger] refs@[m]@.len() == 1,
            strings_view(spine_items@) == spine_hrefs(fv.take(k as int), ev),
        decreases refs.len() - k,
    {
        assert(fv.take(k + 1).drop_last() == fv.take(k as int));
        assert(fv.take(k + 1).last() == fv[k as int]);
        assert(refs@[k as int]@.len() == 1);
        assert(fv[k as int][0] == opt_view(refs@[k as int]@[0]));
        if let Some(idref) = &refs[k][0] {
            if let Some(h) = manifest_lookup(&entries, idref.as_str()) {
                let ghost prev = strings_view(spine_items@);
                spine_items.push(h);
                assert(strings_view(spine_items@) == prev.push(h@));
            }
        }
        k += 1;
    }
    assert(fv.take(refs@.len() as int) == fv);
    if spine_items.len() == 0 {
        spine_items = distinct_hrefs(&entries);
    }
    OpfManifest { spine_items, toc_ncx_href: ncx, nav_href: nav }
}

fn href_for_id(rows: &Vec<Vec<Option<String>>>, id: &str) -> (r: Option<String>)
    requires
        forall|k: int| 0 <= k < rows@.len() ==> #[trigger] rows@[k]@.len() == 4,
    ensures
        opt_view(r) == href_of_id(attr_rows_view(rows@), id@),
{
    let ghost rv = attr_rows_view(rows@);
    let mut j: usize = 0;
    assert(rv.skip(0) == rv);
    while j < rows.len()
        invariant
            j <= rows@.len(),
            rv == attr_rows_view(rows@),
            forall|k: int| 0 <= k < rows@.len() ==> #[trigger] rows@[k]@.len() == 4,
            href_of_id(rv, id@) == href_of_id(rv.skip(j as int), id@),
        decreases rows.len() - j,
    {
        assert(rows@[j as int]@.len() == 4);
        assert(rv.skip(j as int)[0] == rv[j as int]);
        assert(rv.skip(j as int).drop_first() == rv.skip(j + 1));
        assert(rv[j as int][0] == opt_view(rows@[j as int]@[0]));
        assert(rv[j as int][1] == opt_view(rows@[j as int]@[1]));
        let is_it = match &rows[j][0] {
            Some(x) => str_eq(x.as_str(), id),
            None => false,
        };
        if is_it {
            return opt_clone(&rows[j][1]);
        }
        j += 1;
    }
    assert(rv.skip(j as int) == Seq::<Seq<Option<Seq<char>>>>::empty());
    None
}

fn manifest_lookup(entries: &Vec<(String, String)>, id: &str) -> (r: Option<String>)
    ensures
        opt_view(r) == manifest_href(toc_view(entries@), id@),
{
    let ghost ev = toc_view(entries@);
    let mut i: usize = entries.len();
    assert(ev.take(entries@.len() as int) == ev);
    while i > 0
        invariant
            i <= entries@.len(),
            ev == toc_view(entries@),
            manifest_href(ev, id@) == manifest_href(ev.take(i as int), id@),
        decreases i,
    {
        assert(ev.take(i as int).drop_last() == ev.take(i - 1));
        assert(ev.take(i as int).last() == ev[i - 1]);
        if str_eq(entries[i - 1].0.as_str(), id) {
            return Some(entries[i - 1].1.clone());
        }
        i -= 1;
    }
    assert(ev.take(0) == Seq::<(Seq<char>, Seq<char>)>::empty());
    None
}

fn distinct_hrefs(entries: &Vec<(String, String)>) -> (r: Vec<String>)
    ensures
        strings_view(r@) == manifest_hrefs(toc_view(entries@), entries@.len() as int),
{
    let ghost ev = toc_view(entries@);
    let mut out: Vec<String> = Vec::new();
    let mut i: usize = 0;
    while i < entries.len()
        invariant
            i <= entries@.len(),
            ev == toc_view(entries@),
            strings_view(out@) == manifest_hrefs(ev, i as int),
        decreases entries.len() - i,
    {
        let mut last = true;
        let mut j: usize = i + 1;
        while j < entries.len()
            invariant
                i < j <= entries@.len(),
                ev == toc_view(entries@),
                last == forall|m: int| i < m < j ==> #[trigger] ev[m].0 != ev[i as int].0,
            decreases entries.len() - j,
        {
            assert(ev[j as int].0 == entries@[j as int].0@);
            assert(ev[i as int].0 == entries@[i as int].0@);
            if str_eq(entries[j].0.as_str(), entries[i].0.as_str()) {
                last = false;
            }
            j += 1;
        }
        if last {
            let ghost prev = strings_view(out@);
            out.push(entries[i].1.clone());
            assert(strings_view(out@) == prev.push(ev[i as int].1));
        }
        i += 1;
    }
    out
}


// ─── Chapters of the book ───────────────────────────────────────────

/// A chapter taken from the book: its number, its own title, the title it
/// is stored under (the book's title, a dash, its own), and its text.
pub struct EpubChapter {
    pub number: usize,
    pub chapter_title: String,
    pub title: String,
    pub text: String,
}

/// Takes in one spine document of a book of which `chapters_so_far`
/// chapters were taken: `None` when its text, trimmed, is shorter than ten
/// characters; else the next chapter, titled from the table of contents,
/// its heading, or its number.
pub fn prepare_epub_chapter(
    book_title: &str,
    item_href: &str,
    toc_titles: &Vec<(String, String)>,
    content_html: &str,
    chapters_so_far: usize,
) -> (r: Option<EpubChapter>)
    requires
        chapters_so_far < usize::MAX,
    ensures
        ({
            let body = chapter_body_text(content_html@);
            let n = chapters_so_far + 1;
            let ct = chapter_title(item_href@, toc_view(toc_titles@), chapter_heading(content_html@), n as nat);
            match r {
                Some(c) => {
                    &&& trim(body).len() >= 10
                    &&& c.number == n
                    &&& c.text@ == body
                    &&& c.chapter_title@ == ct
                    &&& c.title@ == book_title@ + " — "@ + ct
                },
                None => trim(body).len() < 10,
            }
        }),
{
    let (heading, text) = extract_chapter_text(content_html);
    if to_chars(trim_str(text.as_str()).as_str()).len() < 10 {
        return None;
    }
    let n = chapters_so_far + 1;
    let ct = match &heading {
        Some(h) => resolve_chapter_title(item_href, toc_titles, Some(h.as_str()), n),
        None => resolve_chapter_title(item_href, toc_titles, None, n),
    };
    let mut title = String::new();
    push_str(&mut title, book_title);
    push_str(&mut title, " — ");
    push_str(&mut title, ct.as_str());
    Some(EpubChapter { number: n, chapter_title: ct, title, text })
}

} // verus!

//! Queries on HTML and XML documents, made with the `scraper` crate, and the
//! text clean-up applied to what they return.
use vstd::prelude::*;
use crate::text::{trim_str, strings_view};
use crate::tokenizer::nonblank_trimmed;

verus! {

/// What a query reads of one matching element: its tag name, its text (all
/// text nodes run together), and the value of the requested attribute.
pub struct ElementInfo {
    pub name: String,
    pub text: String,
    pub attr: Option<String>,
}

pub struct ElementInfoView {
    pub name: Seq<char>,
    pub text: Seq<char>,
    pub attr: Option<Seq<char>>,
}

impl View for ElementInfo {
    type V = ElementInfoView;

    open spec fn view(&self) -> ElementInfoView {
        ElementInfoView {
            name: self.name@,
            text: self.text@,
            attr: match self.attr {
                Some(a) => Some(a@),
                None => None,
            },
        }
    }
}

pub open spec fn infos_view(v: Seq<ElementInfo>) -> Seq<ElementInfoView> {
    v.map_values(|e: ElementInfo| e@)
}

/// The elements of the parsed `html` that match the CSS `selector`, in
/// document order, each with the value of `attr`; `None` when the selector
/// does not parse.
pub uninterp spec fn selected_elements(html: Seq<char>, selector: Seq<char>, attr: Seq<char>) -> Option<
    Seq<ElementInfoView>,
>;

/// The text nodes of each element of the parsed `html` that matches
/// `selector`, in document order; `None` when the selector does not parse.
pub uninterp spec fn selected_text_nodes(html: Seq<char>, selector: Seq<char>) -> Option<Seq<Seq<Seq<char>>>>;

/// The inner HTML of each element of the parsed `html` that matches
/// `selector`, in document order, each element's attributes written in the
/// order of the document; `None` when the selector does not parse.
pub uninterp spec fn selected_inner_html(html: Seq<char>, selector: Seq<char>) -> Option<Seq<Seq<char>>>;

/// For each element of the parsed `html` that matches `outer`: the text of
/// its first descendant matching `text_sel`, and the `attr` value of its
/// first descendant matching `attr_sel`; `None` when a selector does not parse.
pub uninterp spec fn selected_pairs(
    html: Seq<char>,
    outer: Seq<char>,
    text_sel: Seq<char>,
    attr_sel: Seq<char>,
    attr: Seq<char>,
) -> Option<Seq<(Option<Seq<char>>, Option<Seq<char>>)>>;

/// Parses `selector` with `scraper::Selector::parse` and `html` with
/// `scraper::Html::parse_document`, and hands out the name, text and `attr`
/// value of each element that `Html::select` yields; the result is named
/// [`selected_elements`].
#[verifier::external_body]
pub(crate) fn select_elements(html: &str, selector: &str, attr: &str) -> (r: Option<Vec<ElementInfo>>)
    ensures
        match r {
            Some(v) => selected_elements(html@, selector@, attr@) == Some(infos_view(v@)),
            None => selected_elements(html@, selector@, attr@) is None,
        },
{
    let sel = scraper::Selector::parse(selector).ok()?;
    let doc = scraper::Html::parse_document(html);
    Some(
        doc.select(&sel).map(
            |e| ElementInfo {
                name: e.value().name().to_string(),
                text: e.text().collect::<String>(),
                attr: e.attr(attr).map(|a| a.to_string()),
            },
        ).collect(),
    )
}

pub open spec fn nodes_view(v: Seq<Vec<String>>) -> Seq<Seq<Seq<char>>> {
    v.map_values(|g: Vec<String>| g@.map_values(|s: String| s@))
}

/// Parses like [`select_elements`] and hands out the text nodes of each
/// element (`ElementRef::text`); the result is named [`selected_text_nodes`].
#[verifier::external_body]
pub(crate) fn select_text_nodes(html: &str, selector: &str) -> (r: Option<Vec<Vec<String>>>)
    ensures
        match r {
            Some(v) => selected_text_nodes(html@, selector@) == Some(nodes_view(v@)),
            None => selected_text_nodes(html@, selector@) is None,
        },
{
    let sel = scraper::Selector::parse(selector).ok()?;
    let doc = scraper::Html::parse_document(html);
    Some(doc.select(&sel).map(|e| e.text().map(|t| t.to_string()).collect()).collect())
}

/// Parses like [`select_elements`] and hands out the inner HTML of each
/// element (`ElementRef::inner_html`); the result is named [`selected_inner_html`].
/// scraper is built with its `deterministic` feature, so an element keeps
/// its attributes in an insertion-ordered map and writes them in the order
/// of the document, and the result depends on `html` and `selector` alone.
#[verifier::external_body]
pub(crate) fn select_inner_html(html: &str, selector: &str) -> (r: Option<Vec<String>>)
    ensures
        match r {
            Some(v) => selected_inner_html(html@, selector@) == Some(v@.map_values(|s: String| s@)),
            None => selected_inner_html(html@, selector@) is None,
        },
{
    let sel = scraper::Selector::parse(selector).ok()?;
    let doc = scraper::Html::parse_document(html);
    Some(doc.select(&sel).map(|e| e.inner_html()).collect())
}

/// For each element of the parsed `html` that matches `selector`, in
/// document order, the value of each of `attrs`; `None` when the selector
/// does not parse.
pub uninterp spec fn selected_attrs(html: Seq<char>, selector: Seq<char>, attrs: Seq<Seq<char>>) -> Option<
    Seq<Seq<Option<Seq<char>>>>,
>;

pub open spec fn attr_rows_view(v: Seq<Vec<Option<String>>>) -> Seq<Seq<Option<Seq<char>>>> {
    v.map_values(
        |row: Vec<Option<String>>|
            row@.map_values(
                |a: Option<String>|
                    match a {
                        Some(s) => Some(s@),
                        None => None,
                    },
            ),
    )
}

/// Parses like [`select_elements`] and hands out, for each element, the
/// value of each of `attrs` (`ElementRef::attr`), one row per element with
/// one entry per attribute; the result is named [`selected_attrs`].
#[verifier::external_body]
pub(crate) fn select_attrs(html: &str, selector: &str, attrs: &[&str]) -> (r: Option<Vec<Vec<Option<String>>>>)
    ensures
        match r {
            Some(v) => {
                &&& selected_attrs(html@, selector@, attrs@.map_values(|a: &str| a@)) == Some(
                    attr_rows_view(v@),
                )
                &&& forall|i: int| 0 <= i < v@.len() ==> #[trigger] v@[i]@.len() == attrs@.len()
            },
            None => selected_attrs(html@, selector@, attrs@.map_values(|a: &str| a@)) is None,
        },
{
    let sel = scraper::Selector::parse(selector).ok()?;
    let doc = scraper::Html::parse_document(html);
    Some(doc.select(&sel).map(|e| attrs.iter().map(|a| e.attr(a).map(|s| s.to_string())).collect()).collect())
}

pub open spec fn pairs_view(v: Seq<(Option<String>, Option<String>)>) -> Seq<(Option<Seq<char>>, Option<Seq<char>>)> {
    v.map_values(
        |p: (Option<String>, Option<String>)|
            (
                match p.0 {
                    Some(a) => Some(a@),
                    None => None,
                },
                match p.1 {
                    Some(b) => Some(b@),
                    None => None,
                },
            ),
    )
}

/// Parses the three selectors and `html` like [`select_elements`]; for each
/// element matching `outer`, selects within it (`ElementRef::select`) the
/// first `text_sel` element's text and the first `attr_sel` element's
/// `attr` value; the result is named [`selected_pairs`].
#[verifier::external_body]
pub(crate) fn select_pairs(html: &str, outer: &str, text_sel: &str, attr_sel: &str, attr: &str) -> (r: Option<
    Vec<(Option<String>, Option<String>)>,
>)
    ensures
        match r {
            Some(v) => selected_pairs(html@, outer@, text_sel@, attr_sel@, attr@) == Some(pairs_view(v@)),
            None => selected_pairs(html@, outer@, text_sel@, attr_sel@, attr@) is None,
        },
{
    let outer_sel = scraper::Selector::parse(outer).ok()?;
    let text_s = scraper::Selector::parse(text_sel).ok()?;
    let attr_s = scraper::Selector::parse(attr_sel).ok()?;
    let doc = scraper::Html::parse_document(html);
    Some(
        doc.select(&outer_sel).map(
            |e| (
                e.select(&text_s).next().map(|t| t.text().collect::<String>()),
                e.select(&attr_s).next().and_then(|a| a.attr(attr)).map(|s| s.to_string()),
            ),
        ).collect(),
    )
}

/// The text of the first element of `html` that matches `sel`, if any.
pub open spec fn first_element_text(html: Seq<char>, sel: Seq<char>) -> Option<Seq<char>> {
    match selected_elements(html, sel, ""@) {
        Some(v) => if v.len() > 0 {
            Some(v[0].text)
        } else {
            None
        },
        None => None,
    }
}

/// The first element of `html` that matches `sel`, with its `attr` value, if any.
pub open spec fn first_element(html: Seq<char>, sel: Seq<char>, attr: Seq<char>) -> Option<ElementInfoView> {
    match selected_elements(html, sel, attr) {
        Some(v) => if v.len() > 0 {
            Some(v[0])
        } else {
            None
        },
        None => None,
    }
}

/// The text of the first element of `html` that matches `sel`.
pub fn first_text(html: &str, sel: &str) -> (r: Option<String>)
    ensures
        match r {
            Some(t) => first_element_text(html@, sel@) == Some(t@),
            None => first_element_text(html@, sel@) is None,
        },
{
    match select_elements(html, sel, "") {
        Some(v) => {
            if v.len() > 0 {
                assert(infos_view(v@)[0] == v@[0]@);
                Some(v[0].text.clone())
            } else {
                None
            }
        },
        None => None,
    }
}

/// The first element of `html` that matches `sel`, read with `attr`.
pub fn first_of(html: &str, sel: &str, attr: &str) -> (r: Option<ElementInfo>)
    ensures
        match r {
            Some(e) => first_element(html@, sel@, attr@) == Some(e@),
            None => first_element(html@, sel@, attr@) is None,
        },
{
    match select_elements(html, sel, attr) {
        Some(v) => {
            if v.len() > 0 {
                let mut v = v;
                assert(infos_view(v@)[0] == v@[0]@);
                Some(v.remove(0))
            } else {
                None
            }
        },
        None => None,
    }
}

/// The texts of the elements.
pub open spec fn texts_of(v: Seq<ElementInfoView>) -> Seq<Seq<char>> {
    v.map_values(|e: ElementInfoView| e.text)
}

/// The texts of the elements that are not blank, trimmed.
pub fn trimmed_nonblank_texts(v: &Vec<ElementInfo>) -> (r: Vec<String>)
    ensures
        strings_view(r@) == nonblank_trimmed(texts_of(infos_view(v@))),
{
    let ghost tv = texts_of(infos_view(v@));
    let mut out: Vec<String> = Vec::new();
    let mut i: usize = 0;
    while i < v.len()
        invariant
            i <= v@.len(),
            tv == texts_of(infos_view(v@)),
            strings_view(out@) == nonblank_trimmed(tv.take(i as int)),
        decreases v.len() - i,
    {
        assert(tv.take(i + 1).drop_last() == tv.take(i as int));
        assert(tv.take(i + 1).last() == v@[i as int].text@);
        let t = trim_str(v[i].text.as_str());
        if !t.as_str().is_empty() {
            let ghost prev = strings_view(out@);
            out.push(t);
            assert(strings_view(out@) == prev.push(t@));
        }
        i += 1;
    }
    assert(tv.take(v@.len() as int) == tv);
    out
}

} // verus!

//! The calls into `scraper`, `regex` and `html2text`.
//!
//! Nothing here is proved: each function below makes one call and converts
//! what it returns into plain values, and its contract is believed. What
//! those crates compute (HTML parsing, CSS selection, regular expressions,
//! text rendering) takes pages to state, so their results are given names
//! (the `uninterp` spec functions) that depend on the arguments alone.
//!
//! A `Document`, `CssSelector` or `TextPattern` is only ever made by the
//! function here that parses it, and it keeps the text it was parsed from;
//! that text is its view, so the names speak of plain text.
use vstd::prelude::*;

verus! {

#[verifier::external_type_specification]
#[verifier::external_body]
pub struct ExHtml(scraper::Html);

#[verifier::external_type_specification]
#[verifier::external_body]
pub struct ExSelector(scraper::Selector);

#[verifier::external_type_specification]
#[verifier::external_body]
pub struct ExRegex(regex::Regex);

#[verifier::external_type_specification]
#[verifier::external_body]
pub struct ExHtmlTextError(html2text::Error);

/// The view of an optional owned string.
pub open spec fn opt_view(a: Option<String>) -> Option<Seq<char>> {
    match a {
        Some(s) => Some(s@),
        None => None,
    }
}

/// The texts of a list of owned strings.
pub open spec fn texts_view(v: Seq<String>) -> Seq<Seq<char>> {
    v.map_values(|t: String| t@)
}

/// The texts of a list of optional owned strings.
pub open spec fn opt_texts_view(v: Seq<Option<String>>) -> Seq<Option<Seq<char>>> {
    v.map_values(|a: Option<String>| opt_view(a))
}

/// The texts of each list in a list of lists of owned strings.
pub open spec fn text_rows(v: Seq<Vec<String>>) -> Seq<Seq<Seq<char>>> {
    v.map_values(|row: Vec<String>| texts_view(row@))
}

/// The values of each list in a list of lists of optional owned strings.
pub open spec fn link_rows(v: Seq<Vec<Option<String>>>) -> Seq<Seq<Option<Seq<char>>>> {
    v.map_values(|row: Vec<Option<String>>| opt_texts_view(row@))
}

/// Whether `scraper::Selector::parse` accepts `selector`.
pub uninterp spec fn selector_accepted(selector: Seq<char>) -> bool;

/// For each element that `selector` matches in the document parsed from
/// `document` (in document order), its text (`ElementRef::text`, joined).
pub uninterp spec fn selected_texts(document: Seq<char>, selector: Seq<char>) -> Seq<Seq<char>>;

/// For each element that `selector` matches in the document parsed from
/// `document`, its inner HTML (`ElementRef::inner_html`).
pub uninterp spec fn selected_inner_html(document: Seq<char>, selector: Seq<char>) -> Seq<
    Seq<char>,
>;

/// For each element that `selector` matches in the document parsed from
/// `document`, its HTML (`ElementRef::html`).
pub uninterp spec fn selected_html(document: Seq<char>, selector: Seq<char>) -> Seq<Seq<char>>;

/// For each element that `selector` matches in the document parsed from
/// `document`, the value of its attribute `attr`, if it has one.
pub uninterp spec fn selected_attrs(document: Seq<char>, selector: Seq<char>, attr: Seq<char>) -> Seq<
    Option<Seq<char>>,
>;

/// For each element that `outer` matches in the document parsed from
/// `document`, the texts of the elements below it that `inner` matches.
pub uninterp spec fn selected_inner_texts(
    document: Seq<char>,
    outer: Seq<char>,
    inner: Seq<char>,
) -> Seq<Seq<Seq<char>>>;

/// For each element that `outer` matches in the document parsed from
/// `document`, the values of attribute `attr` of the elements below it that
/// `inner` matches.
pub uninterp spec fn selected_inner_attrs(
    document: Seq<char>,
    outer: Seq<char>,
    inner: Seq<char>,
    attr: Seq<char>,
) -> Seq<Seq<Option<Seq<char>>>>;

/// The HTML that `scraper::Html::html` writes for the document parsed from
/// `document`.
pub uninterp spec fn serialized_document(document: Seq<char>) -> Seq<char>;

/// Whether `regex::Regex::new` accepts `pattern`.
pub uninterp spec fn pattern_accepted(pattern: Seq<char>) -> bool;

/// What `regex::Regex::replace_all` gives for the regex compiled from
/// `pattern`, the haystack `text` and the replacement `replacement`.
pub uninterp spec fn pattern_replaced(
    pattern: Seq<char>,
    text: Seq<char>,
    replacement: Seq<char>,
) -> Seq<char>;

/// What `html2text::from_read` gives for the bytes of `html` at `width`
/// columns: the text, or `None` where it fails.
pub uninterp spec fn rendered_text(html: Seq<char>, width: usize) -> Option<Seq<char>>;

/// A document parsed by `scraper::Html::parse_document`, with its source.
pub(crate) struct Document {
    tree: scraper::Html,
    source: String,
}

impl View for Document {
    type V = Seq<char>;

    closed spec fn view(&self) -> Seq<char> {
        self.source@
    }
}

/// A selector parsed by `scraper::Selector::parse`, with its source.
pub(crate) struct CssSelector {
    compiled: scraper::Selector,
    source: String,
}

impl View for CssSelector {
    type V = Seq<char>;

    closed spec fn view(&self) -> Seq<char> {
        self.source@
    }
}

/// A regex compiled by `regex::Regex::new`, with its source.
pub(crate) struct TextPattern {
    compiled: regex::Regex,
    source: String,
}

impl View for TextPattern {
    type V = Seq<char>;

    closed spec fn view(&self) -> Seq<char> {
        self.source@
    }
}

/// Calls `scraper::Html::parse_document` on `source`; claims only that the
/// result's view is `source`.
#[verifier::external_body]
pub(crate) fn parse_document(source: &str) -> (d: Document)
    ensures
        d@ == source@,
{
    Document { tree: scraper::Html::parse_document(source), source: source.to_string() }
}

/// Calls `scraper::Selector::parse` on `a`; claims that it succeeds exactly
/// where `selector_accepted` holds, and that the result's view is `a`.
#[verifier::external_body]
pub(crate) fn parse_selector(a: &str) -> (r: Option<CssSelector>)
    ensures
        r is Some <==> selector_accepted(a@),
        r matches Some(sel) ==> sel@ == a@,
{
    match scraper::Selector::parse(a) {
        Ok(compiled) => Some(CssSelector { compiled, source: a.to_string() }),
        Err(_) => None,
    }
}

/// Calls `scraper::Html::select` and `ElementRef::text`; claims the result is
/// `selected_texts` of the document and the selector.
#[verifier::external_body]
pub(crate) fn select_texts(doc: &Document, sel: &CssSelector) -> (r: Vec<String>)
    ensures
        texts_view(r@) == selected_texts(doc@, sel@),
{
    doc.tree.select(&sel.compiled).map(|e| e.text().collect::<String>()).collect()
}

/// Calls `scraper::Html::select` and `ElementRef::inner_html`; claims the
/// result is `selected_inner_html` of the document and the selector.
#[verifier::external_body]
pub(crate) fn select_inner_html(doc: &Document, sel: &CssSelector) -> (r: Vec<String>)
    ensures
        texts_view(r@) == selected_inner_html(doc@, sel@),
{
    doc.tree.select(&sel.compiled).map(|e| e.inner_html()).collect()
}

/// Calls `scraper::Html::select` and `ElementRef::html`; claims the result is
/// `selected_html` of the document and the selector.
#[verifier::external_body]
pub(crate) fn select_html(doc: &Document, sel: &CssSelector) -> (r: Vec<String>)
    ensures
        texts_view(r@) == selected_html(doc@, sel@),
{
    doc.tree.select(&sel.compiled).map(|e| e.html()).collect()
}

/// Calls `scraper::Html::select` and `Element::attr`; claims the result is
/// `selected_attrs` of the document, the selector and the attribute name,
/// with one entry per matched element whatever the attribute.
#[verifier::external_body]
pub(crate) fn select_attrs(doc: &Document, sel: &CssSelector, attr: &str) -> (r: Vec<Option<String>>)
    ensures
        opt_texts_view(r@) == selected_attrs(doc@, sel@, attr@),
        forall|other: Seq<char>| #[trigger] selected_attrs(doc@, sel@, other).len() == r@.len(),
{
    doc.tree.select(&sel.compiled).map(|e| e.value().attr(attr).map(|a| a.to_string())).collect()
}

/// Calls `scraper::Html::select`, then `ElementRef::select` and
/// `ElementRef::text` on each match; claims the result is
/// `selected_inner_texts` of the document and the two selectors, with one
/// entry per element `outer` matches (as many as `selected_attrs` has).
#[verifier::external_body]
pub(crate) fn select_inner_texts(doc: &Document, outer: &CssSelector, inner: &CssSelector) -> (r: Vec<
    Vec<String>,
>)
    ensures
        text_rows(r@) == selected_inner_texts(doc@, outer@, inner@),
        forall|other: Seq<char>| #[trigger] selected_attrs(doc@, outer@, other).len() == r@.len(),
{
    doc.tree.select(&outer.compiled).map(
        |e| e.select(&inner.compiled).map(|x| x.text().collect::<String>()).collect(),
    ).collect()
}

/// Calls `scraper::Html::select`, then `ElementRef::select` and
/// `Element::attr` on each match; claims the result is `selected_inner_attrs`
/// of the document, the two selectors and the attribute name, with one entry
/// per element `outer` matches (as many as `selected_attrs` has).
#[verifier::external_body]
pub(crate) fn select_inner_attrs(
    doc: &Document,
    outer: &CssSelector,
    inner: &CssSelector,
    attr: &str,
) -> (r: Vec<Vec<Option<String>>>)
    ensures
        link_rows(r@) == selected_inner_attrs(doc@, outer@, inner@, attr@),
        forall|other: Seq<char>| #[trigger] selected_attrs(doc@, outer@, other).len() == r@.len(),
{
    doc.tree.select(&outer.compiled).map(
        |e| e.select(&inner.compiled).map(|x| x.value().attr(attr).map(|a| a.to_string())).collect(),
    ).collect()
}

/// Calls `scraper::Html::html`; claims the result is `serialized_document`
/// of the document.
#[verifier::external_body]
pub(crate) fn document_html(doc: &Document) -> (r: String)
    ensures
        r@ == serialized_document(doc@),
{
    doc.tree.html()
}

/// Calls `regex::Regex::new` on `pattern`; claims that it succeeds exactly
/// where `pattern_accepted` holds, and that the result's view is `pattern`.
#[verifier::external_body]
pub(crate) fn compile_pattern(pattern: &str) -> (r: Option<TextPattern>)
    ensures
        r is Some <==> pattern_accepted(pattern@),
        r matches Some(p) ==> p@ == pattern@,
{
    match regex::Regex::new(pattern) {
        Ok(compiled) => Some(TextPattern { compiled, source: pattern.to_string() }),
        Err(_) => None,
    }
}

/// Calls `regex::Regex::replace_all`; claims the result is
/// `pattern_replaced` of the pattern, the text and the replacement.
#[verifier::external_body]
pub(crate) fn replace_matches(pattern: &TextPattern, text: &str, replacement: &str) -> (r: String)
    ensures
        r@ == pattern_replaced(pattern@, text@, replacement@),
{
    pattern.compiled.replace_all(text, replacement).into_owned()
}

/// Calls `html2text::from_read` on the bytes of `html`; claims that it
/// succeeds exactly where `rendered_text` is `Some`, with that text.
#[verifier::external_body]
pub(crate) fn html_to_text(html: &str, width: usize) -> (r: Result<String, html2text::Error>)
    ensures
        match r {
            Ok(t) => rendered_text(html@, width) == Some(t@),
            Err(_) => rendered_text(html@, width) is None,
        },
{
    html2text::from_read(html.as_bytes(), width)
}

} // verus!

//! Reading the gallery's pages: the articles a board page lists, what an
//! article's page says of it, and the comments the comment service returns.
use vstd::prelude::*;

use crate::constants::{
    ARTICLE_BODY_SCRAPER, ARTICLE_COMMENT_CNT_SCRAPER, ARTICLE_GONIC_CHECK_SCRAPER,
    ARTICLE_RECOMMEND_SCRAPER, ARTICLE_ROOT_SCRAPER, ARTICLE_VIEW_SCRAPER, ARTICLE_WRITE_SCRAPER,
    COMMENT_BODY_SCRAPER, COMMENT_DATE_SCRAPER, COMMENT_LINK_SCRAPER, COMMENT_SCRAPER,
    COMMENT_WRITER_SCRAPER, ROOT_SCRAPE, SCRIPT_PATTERN, URL_SCRAPE,
};
use crate::data_list::{
    comments_view, fresh_article, ArticleList, ArticleView, CommentInfo, CommentView,
};
use crate::error::ScrapeError;
use crate::outside::{
    compile_pattern, document_html, link_rows, opt_texts_view, opt_view, parse_document,
    parse_selector, pattern_accepted, pattern_replaced, replace_matches, select_attrs,
    select_html, select_inner_attrs, select_inner_html, select_inner_texts, select_texts,
    selected_attrs, selected_html, selected_inner_attrs, selected_inner_html, selected_inner_texts,
    selected_texts, selector_accepted, serialized_document, text_rows, texts_view, CssSelector,
};
use crate::address::{article_address, law_article_number_round_trip};
use crate::text::{
    after_last_slash_of, law_strip_layout_leaves_none, lemma_strip_layout_concat, contains, contains_seq, decimal, has_prefix, last_segment, parse_u32,
    parsed_u32, push_decimal, replace_all, replaced, starts_with, strip_layout, without_layout,
};

verus! {

/// The texts of `v`, one after another.
pub open spec fn joined(v: Seq<Seq<char>>) -> Seq<char>
    decreases v.len(),
{
    if v.len() == 0 {
        Seq::empty()
    } else {
        joined(v.drop_last()) + v.last()
    }
}

/// The texts of `v`, one after another, each without line feeds and tabs.
pub open spec fn joined_stripped(v: Seq<Seq<char>>) -> Seq<char>
    decreases v.len(),
{
    if v.len() == 0 {
        Seq::empty()
    } else {
        joined_stripped(v.drop_last()) + strip_layout(v.last())
    }
}

/// The values of `v`, one after another, where every one is present.
pub open spec fn joined_present(v: Seq<Option<Seq<char>>>) -> Option<Seq<char>>
    decreases v.len(),
{
    if v.len() == 0 {
        Some(Seq::empty())
    } else {
        match (joined_present(v.drop_last()), v.last()) {
            (Some(p), Some(x)) => Some(p + x),
            _ => None,
        }
    }
}

/// The values of `v`, one after another, an absent one counting as empty.
pub open spec fn joined_or_empty(v: Seq<Option<Seq<char>>>) -> Seq<char>
    decreases v.len(),
{
    if v.len() == 0 {
        Seq::empty()
    } else {
        joined_or_empty(v.drop_last()) + match v.last() {
            Some(x) => x,
            None => Seq::empty(),
        }
    }
}

/// The texts of `v`, one after another.
pub fn join_texts(v: &Vec<String>) -> (r: String)
    ensures
        r@ == joined(texts_view(v@)),
{
    let ghost t = texts_view(v@);
    let mut out = String::new();
    let mut i: usize = 0;
    proof {
        assert(t.take(0) == Seq::<Seq<char>>::empty());
    }
    while i < v.len()
        invariant
            i <= v@.len(),
            t == texts_view(v@),
            out@ == joined(t.take(i as int)),
        decreases v@.len() - i,
    {
        out.append(v[i].as_str());
        proof {
            assert(t.take(i + 1).drop_last() == t.take(i as int));
            assert(t.take(i + 1).last() == v@[i as int]@);
        }
        i = i + 1;
    }
    proof {
        assert(t.take(v@.len() as int) == t);
    }
    out
}

/// The texts of `v`, one after another, each without line feeds and tabs.
pub fn join_stripped(v: &Vec<String>) -> (r: String)
    ensures
        r@ == joined_stripped(texts_view(v@)),
{
    let ghost t = texts_view(v@);
    let mut out = String::new();
    let mut i: usize = 0;
    proof {
        assert(t.take(0) == Seq::<Seq<char>>::empty());
    }
    while i < v.len()
        invariant
            i <= v@.len(),
            t == texts_view(v@),
            out@ == joined_stripped(t.take(i as int)),
        decreases v@.len() - i,
    {
        let s = without_layout(v[i].as_str());
        out.append(s.as_str());
        proof {
            assert(t.take(i + 1).drop_last() == t.take(i as int));
            assert(t.take(i + 1).last() == v@[i as int]@);
        }
        i = i + 1;
    }
    proof {
        assert(t.take(v@.len() as int) == t);
    }
    out
}

/// The values of `v`, one after another, or `None` where one is absent.
pub fn join_present(v: &Vec<Option<String>>) -> (r: Option<String>)
    ensures
        opt_view(r) == joined_present(opt_texts_view(v@)),
{
    let ghost t = opt_texts_view(v@);
    let mut out = String::new();
    let mut i: usize = 0;
    proof {
        assert(t.take(0) == Seq::<Option<Seq<char>>>::empty());
    }
    while i < v.len()
        invariant
            i <= v@.len(),
            t == opt_texts_view(v@),
            joined_present(t.take(i as int)) == Some(out@),
        decreases v@.len() - i,
    {
        proof {
            assert(t.take(i + 1).drop_last() == t.take(i as int));
            assert(t.take(i + 1).last() == opt_view(v@[i as int]));
        }
        match &v[i] {
            Some(x) => {
                out.append(x.as_str());
            },
            None => {
                proof {
                    lemma_joined_present_absent(t, i as int + 1);
                }
                return None;
            },
        }
        i = i + 1;
    }
    proof {
        assert(t.take(v@.len() as int) == t);
    }
    Some(out)
}

/// Once a prefix of `v` holds an absent value, so does `v`.
proof fn lemma_joined_present_absent(v: Seq<Option<Seq<char>>>, k: int)
    requires
        0 <= k <= v.len(),
        joined_present(v.take(k)) is None,
    ensures
        joined_present(v) is None,
    decreases v.len(),
{
    if k == v.len() {
        assert(v.take(k) == v);
    } else {
        assert(v.drop_last().take(k) == v.take(k));
        lemma_joined_present_absent(v.drop_last(), k);
    }
}

/// The values of `v`, one after another, an absent one counting as empty.
pub fn join_or_empty(v: &Vec<Option<String>>) -> (r: String)
    ensures
        r@ == joined_or_empty(opt_texts_view(v@)),
{
    let ghost t = opt_texts_view(v@);
    let mut out = String::new();
    let mut i: usize = 0;
    proof {
        assert(t.take(0) == Seq::<Option<Seq<char>>>::empty());
    }
    while i < v.len()
        invariant
            i <= v@.len(),
            t == opt_texts_view(v@),
            out@ == joined_or_empty(t.take(i as int)),
        decreases v@.len() - i,
    {
        proof {
            assert(t.take(i + 1).drop_last() == t.take(i as int));
            assert(t.take(i + 1).last() == opt_view(v@[i as int]));
        }
        match &v[i] {
            Some(x) => {
                out.append(x.as_str());
            },
            None => {
                proof {
                    assert(out@ + Seq::<char>::empty() == out@);
                }
            },
        }
        i = i + 1;
    }
    proof {
        assert(t.take(v@.len() as int) == t);
    }
    out
}

/// The query that a board page's links end in: `"?page={page}"`.
pub open spec fn page_query(page: u32) -> Seq<char> {
    "?page="@ + decimal(page as nat)
}

/// The article number in a board page's link: the part after the last
/// `'/'`, without the page query, read as a number.
pub open spec fn href_article_id(href: Seq<char>, page: u32) -> Result<u32, ScrapeError> {
    match last_segment(href) {
        None => Err(ScrapeError::MissingSlash),
        Some(r) => match parsed_u32(replaced(r, page_query(page), Seq::empty())) {
            Some(id) => Ok(id),
            None => Err(ScrapeError::InvalidNumber),
        },
    }
}

/// The query that a board page's links end in.
fn page_query_string(page: u32) -> (r: String)
    ensures
        r@ == page_query(page),
{
    let mut q = String::from_str("?page=");
    push_decimal(&mut q, page);
    q
}

/// The number of the article that a link on board page `page` leads to.
pub fn article_id_from_href(href: &str, page: u32) -> (r: Result<u32, ScrapeError>)
    ensures
        r == href_article_id(href@, page),
{
    let seg = match after_last_slash_of(href) {
        Some(s) => s,
        None => return Err(ScrapeError::MissingSlash),
    };
    let q = page_query_string(page);
    let digits = replace_all(seg.as_str(), q.as_str(), "");
    proof {
        reveal_strlit("");
        assert(""@ == Seq::<char>::empty());
    }
    match parse_u32(digits.as_str()) {
        Some(id) => Ok(id),
        None => Err(ScrapeError::InvalidNumber),
    }
}

/// What one item of a board page gives: no article where its link is empty,
/// else the article number, or why it could not be read.
pub open spec fn list_entry(links: Seq<Option<Seq<char>>>, page: u32) -> Result<Option<u32>, ScrapeError> {
    match joined_present(links) {
        None => Err(ScrapeError::MissingAttribute),
        Some(url) => if url.len() == 0 {
            Ok(None)
        } else {
            match href_article_id(url, page) {
                Ok(id) => Ok(Some(id)),
                Err(e) => Err(e),
            }
        },
    }
}

/// The article numbers that the items of a board page give, in order, or
/// the first reason an item could not be read.
pub open spec fn listed_ids(rows: Seq<Seq<Option<Seq<char>>>>, page: u32) -> Result<Seq<u32>, ScrapeError>
    decreases rows.len(),
{
    if rows.len() == 0 {
        Ok(Seq::empty())
    } else {
        match listed_ids(rows.drop_last(), page) {
            Err(e) => Err(e),
            Ok(ids) => match list_entry(rows.last(), page) {
                Err(e) => Err(e),
                Ok(None) => Ok(ids),
                Ok(Some(id)) => Ok(ids.push(id)),
            },
        }
    }
}

/// Once a prefix of the rows fails, all of them fail the same way.
proof fn lemma_listed_ids_err(rows: Seq<Seq<Option<Seq<char>>>>, page: u32, k: int)
    requires
        0 <= k <= rows.len(),
        listed_ids(rows.take(k), page) is Err,
    ensures
        listed_ids(rows, page) == listed_ids(rows.take(k), page),
    decreases rows.len(),
{
    if k == rows.len() {
        assert(rows.take(k) == rows);
    } else {
        assert(rows.drop_last().take(k) == rows.take(k));
        lemma_listed_ids_err(rows.drop_last(), page, k);
    }
}

/// The views of a list of articles.
pub open spec fn articles_view(v: Seq<ArticleList>) -> Seq<ArticleView> {
    v.map_values(|a: ArticleList| a@)
}

/// New articles of gallery `gallname` with numbers `ids`.
pub open spec fn fresh_articles(gallname: Seq<char>, ids: Seq<u32>) -> Seq<ArticleView> {
    ids.map_values(|id: u32| fresh_article(gallname, id))
}

/// The articles of gallery `gallname` that the items of board page `page`
/// list, given the link values read from each item.
pub fn articles_from_links(gallname: &str, page: u32, links: &Vec<Vec<Option<String>>>) -> (r: Result<
    Vec<ArticleList>,
    ScrapeError,
>)
    ensures
        match listed_ids(link_rows(links@), page) {
            Ok(ids) => r matches Ok(v) && articles_view(v@) == fresh_articles(gallname@, ids),
            Err(e) => r == Err::<Vec<ArticleList>, ScrapeError>(e),
        },
{
    let ghost rows = link_rows(links@);
    let ghost mut ids: Seq<u32> = Seq::empty();
    let mut out: Vec<ArticleList> = Vec::new();
    let mut i: usize = 0;
    proof {
        assert(rows.take(0) == Seq::<Seq<Option<Seq<char>>>>::empty());
    }
    while i < links.len()
        invariant
            i <= links@.len(),
            rows == link_rows(links@),
            listed_ids(rows.take(i as int), page) == Ok::<Seq<u32>, ScrapeError>(ids),
            articles_view(out@) == fresh_articles(gallname@, ids),
        decreases links@.len() - i,
    {
        let ghost prev = rows.take(i as int);
        proof {
            assert(rows.take(i + 1).drop_last() == prev);
            assert(rows.take(i + 1).last() == opt_texts_view(links@[i as int]@));
        }
        let url = match join_present(&links[i]) {
            Some(u) => u,
            None => {
                proof {
                    lemma_listed_ids_err(rows, page, i + 1);
                }
                return Err(ScrapeError::MissingAttribute);
            },
        };
        if url.unicode_len() > 0 {
            match article_id_from_href(url.as_str(), page) {
                Ok(id) => {
                    let ghost before = out@;
                    out.push(ArticleList::new(gallname.to_string(), id));
                    proof {
                        ids = ids.push(id);
                        assert(articles_view(out@) == articles_view(before).push(fresh_article(gallname@, id)));
                        assert(fresh_articles(gallname@, ids) == fresh_articles(gallname@, ids.drop_last()).push(fresh_article(gallname@, id)));
                    }
                },
                Err(e) => {
                    proof {
                        lemma_listed_ids_err(rows, page, i + 1);
                    }
                    return Err(e);
                },
            }
        }
        i = i + 1;
    }
    proof {
        assert(rows.take(links@.len() as int) == rows);
    }
    Ok(out)
}

/// The link values of each item of the board page `html`.
pub open spec fn list_page_rows(html: Seq<char>) -> Seq<Seq<Option<Seq<char>>>> {
    selected_inner_html(html, ROOT_SCRAPE@).map_values(
        |item: Seq<char>| selected_attrs(item, URL_SCRAPE@, "href"@),
    )
}

/// The articles of gallery `gallname` that board page `page`, whose HTML is
/// `html`, lists; or why they could not be read.
pub open spec fn listed_articles(gallname: Seq<char>, page: u32, html: Seq<char>) -> Result<
    Seq<ArticleView>,
    ScrapeError,
> {
    if !selector_accepted(ROOT_SCRAPE@) || !selector_accepted(URL_SCRAPE@) {
        Err(ScrapeError::InvalidSelector)
    } else {
        match listed_ids(list_page_rows(html), page) {
            Ok(ids) => Ok(fresh_articles(gallname, ids)),
            Err(e) => Err(e),
        }
    }
}

/// The articles of gallery `gallname` that board page `page` lists, read
/// from the page's HTML: each item's `div > a.lt` links, joined, end in the
/// article number followed by the page query.
///
/// Where a link lacks its address, holds no `'/'`, or does not end in a
/// number, the answer is the matching error and no article is returned; the
/// program that fetches the page stops there with a panic.
pub fn articles_from_list_page(gallname: &str, page: u32, html: &str) -> (r: Result<
    Vec<ArticleList>,
    ScrapeError,
>)
    ensures
        match listed_articles(gallname@, page, html@) {
            Ok(a) => r matches Ok(v) && articles_view(v@) == a,
            Err(e) => r == Err::<Vec<ArticleList>, ScrapeError>(e),
        },
{
    let root = match parse_selector(ROOT_SCRAPE) {
        Some(s) => s,
        None => return Err(ScrapeError::InvalidSelector),
    };
    let url_selector = match parse_selector(URL_SCRAPE) {
        Some(s) => s,
        None => return Err(ScrapeError::InvalidSelector),
    };
    let document = parse_document(html);
    let items = select_inner_html(&document, &root);
    let ghost item_texts = texts_view(items@);
    let mut links: Vec<Vec<Option<String>>> = Vec::new();
    let mut i: usize = 0;
    while i < items.len()
        invariant
            i <= items@.len(),
            item_texts == texts_view(items@),
            url_selector@ == URL_SCRAPE@,
            links@.len() == i,
            forall|j: int|
                0 <= j < i ==> opt_texts_view(#[trigger] links@[j]@) == selected_attrs(
                    item_texts[j],
                    URL_SCRAPE@,
                    "href"@,
                ),
        decreases items@.len() - i,
    {
        let item = parse_document(items[i].as_str());
        links.push(select_attrs(&item, &url_selector, "href"));
        i = i + 1;
    }
    proof {
        assert(link_rows(links@) == list_page_rows(html@));
    }
    articles_from_links(gallname, page, &links)
}

/// What an article's page says of it.
pub struct PageDetails {
    pub body: String,
    pub title: String,
    pub writer: String,
    pub time: String,
    pub writer_info: String,
    pub recommend: u32,
    pub comment_cnt: u32,
    pub view: u32,
}

/// What an article's page says of it, as plain values.
pub ghost struct DetailsView {
    pub body: Seq<char>,
    pub title: Seq<char>,
    pub writer: Seq<char>,
    pub time: Seq<char>,
    pub writer_info: Seq<char>,
    pub recommend: u32,
    pub comment_cnt: u32,
    pub view: u32,
}

impl View for PageDetails {
    type V = DetailsView;

    open spec fn view(&self) -> DetailsView {
        DetailsView {
            body: self.body@,
            title: self.title@,
            writer: self.writer@,
            time: self.time@,
            writer_info: self.writer_info@,
            recommend: self.recommend,
            comment_cnt: self.comment_cnt,
            view: self.view,
        }
    }
}

/// The label before the view count on an article's page.
pub open spec fn view_label() -> Seq<char> {
    "조회수 "@
}

/// What an article's page says of it, given the texts read from the page:
/// the title and body parts (each without line feeds and tabs), the writer
/// and time (the first two write-info entries), the writer's link (link
/// values joined, absent ones empty), and the three counts (texts joined,
/// the view count without its label); or why they could not be read.
pub open spec fn details_from_parts(
    titles: Seq<Seq<char>>,
    write_info: Seq<Seq<char>>,
    bodies: Seq<Seq<char>>,
    writer_links: Seq<Option<Seq<char>>>,
    views: Seq<Seq<char>>,
    recommend_texts: Seq<Seq<char>>,
    comment_cnts: Seq<Seq<char>>,
) -> Result<DetailsView, ScrapeError> {
    if write_info.len() < 2 {
        Err(ScrapeError::MissingWriteInfo)
    } else {
        match (
            parsed_u32(joined(recommend_texts)),
            parsed_u32(joined(comment_cnts)),
            parsed_u32(replaced(joined(views), view_label(), Seq::empty())),
        ) {
            (Some(recommend), Some(comment_cnt), Some(view)) => Ok(
                DetailsView {
                    body: joined_stripped(bodies),
                    title: joined_stripped(titles),
                    writer: write_info[0],
                    time: write_info[1],
                    writer_info: joined_or_empty(writer_links),
                    recommend,
                    comment_cnt,
                    view,
                },
            ),
            _ => Err(ScrapeError::InvalidNumber),
        }
    }
}

/// What an article's page says of it, given the texts read from the page
/// (see `details_from_parts`).
pub fn page_details_from_parts(
    titles: &Vec<String>,
    write_info: &Vec<String>,
    bodies: &Vec<String>,
    writer_links: &Vec<Option<String>>,
    views: &Vec<String>,
    recommend_texts: &Vec<String>,
    comment_cnts: &Vec<String>,
) -> (r: Result<PageDetails, ScrapeError>)
    ensures
        match details_from_parts(
            texts_view(titles@),
            texts_view(write_info@),
            texts_view(bodies@),
            opt_texts_view(writer_links@),
            texts_view(views@),
            texts_view(recommend_texts@),
            texts_view(comment_cnts@),
        ) {
            Ok(d) => r matches Ok(p) && p@ == d,
            Err(e) => r == Err::<PageDetails, ScrapeError>(e),
        },
{
    if write_info.len() < 2 {
        return Err(ScrapeError::MissingWriteInfo);
    }
    let writer = write_info[0].clone();
    let time = write_info[1].clone();
    let recommend = parse_u32(join_texts(recommend_texts).as_str());
    let comment_cnt = parse_u32(join_texts(comment_cnts).as_str());
    let label = String::from_str("조회수 ");
    proof {
        reveal_strlit("");
        assert(""@ == Seq::<char>::empty());
    }
    let view_text = replace_all(join_texts(views).as_str(), label.as_str(), "");
    let view = parse_u32(view_text.as_str());
    match (recommend, comment_cnt, view) {
        (Some(recommend), Some(comment_cnt), Some(view)) => Ok(
            PageDetails {
                body: join_stripped(bodies),
                title: join_stripped(titles),
                writer,
                time,
                writer_info: join_or_empty(writer_links),
                recommend,
                comment_cnt,
                view,
            },
        ),
        _ => Err(ScrapeError::InvalidNumber),
    }
}

/// The body parts of the article page `html`: each matched element's HTML,
/// parsed and written out again, without its scripts.
pub open spec fn body_parts(html: Seq<char>) -> Seq<Seq<char>> {
    selected_html(html, ARTICLE_BODY_SCRAPER@).map_values(
        |part: Seq<char>| pattern_replaced(SCRIPT_PATTERN@, serialized_document(part), ""@),
    )
}

/// Whether every selector read on an article's page is accepted.
pub open spec fn page_selectors_accepted() -> bool {
    &&& selector_accepted(ARTICLE_ROOT_SCRAPER@)
    &&& selector_accepted(ARTICLE_WRITE_SCRAPER@)
    &&& selector_accepted(ARTICLE_GONIC_CHECK_SCRAPER@)
    &&& selector_accepted(ARTICLE_BODY_SCRAPER@)
    &&& selector_accepted(ARTICLE_VIEW_SCRAPER@)
    &&& selector_accepted(ARTICLE_RECOMMEND_SCRAPER@)
    &&& selector_accepted(ARTICLE_COMMENT_CNT_SCRAPER@)
}

/// What the article page `html` says of its article, or why it could not be
/// read.
pub open spec fn page_details(html: Seq<char>) -> Result<DetailsView, ScrapeError> {
    if !page_selectors_accepted() {
        Err(ScrapeError::InvalidSelector)
    } else if !pattern_accepted(SCRIPT_PATTERN@) {
        Err(ScrapeError::InvalidPattern)
    } else {
        details_from_parts(
            selected_texts(html, ARTICLE_ROOT_SCRAPER@),
            selected_texts(html, ARTICLE_WRITE_SCRAPER@),
            body_parts(html),
            selected_attrs(html, ARTICLE_GONIC_CHECK_SCRAPER@, "href"@),
            selected_texts(html, ARTICLE_VIEW_SCRAPER@),
            selected_texts(html, ARTICLE_RECOMMEND_SCRAPER@),
            selected_texts(html, ARTICLE_COMMENT_CNT_SCRAPER@),
        )
    }
}

/// Parses one of the page's selectors.
fn page_selector(a: &str) -> (r: Result<CssSelector, ScrapeError>)
    ensures
        match r {
            Ok(s) => selector_accepted(a@) && s@ == a@,
            Err(e) => !selector_accepted(a@) && e == ScrapeError::InvalidSelector,
        },
{
    match parse_selector(a) {
        Some(s) => Ok(s),
        None => Err(ScrapeError::InvalidSelector),
    }
}

/// What the article page `html` says of its article: title, writer and
/// time, the writer's link, the body without scripts, and the view,
/// recommendation and comment counts.
///
/// Where the page gives fewer than two write-info entries, or a count that
/// is not a number, the answer is the matching error; the program that
/// fetches the page then stops with a panic and leaves the article as it
/// was.
pub fn article_page_details(html: &str) -> (r: Result<PageDetails, ScrapeError>)
    ensures
        match page_details(html@) {
            Ok(d) => r matches Ok(p) && p@ == d,
            Err(e) => r == Err::<PageDetails, ScrapeError>(e),
        },
{
    let title_selector = page_selector(ARTICLE_ROOT_SCRAPER)?;
    let write_selector = page_selector(ARTICLE_WRITE_SCRAPER)?;
    let gonik_selector = page_selector(ARTICLE_GONIC_CHECK_SCRAPER)?;
    let body_selector = page_selector(ARTICLE_BODY_SCRAPER)?;
    let view_selector = page_selector(ARTICLE_VIEW_SCRAPER)?;
    let recommend_selector = page_selector(ARTICLE_RECOMMEND_SCRAPER)?;
    let comment_cnt_selector = page_selector(ARTICLE_COMMENT_CNT_SCRAPER)?;
    let script = match compile_pattern(SCRIPT_PATTERN) {
        Some(p) => p,
        None => return Err(ScrapeError::InvalidPattern),
    };
    let document = parse_document(html);
    let titles = select_texts(&document, &title_selector);
    let write_info = select_texts(&document, &write_selector);
    let parts = select_html(&document, &body_selector);
    let ghost part_texts = texts_view(parts@);
    let mut bodies: Vec<String> = Vec::new();
    let mut i: usize = 0;
    while i < parts.len()
        invariant
            i <= parts@.len(),
            part_texts == texts_view(parts@),
            script@ == SCRIPT_PATTERN@,
            bodies@.len() == i,
            forall|j: int|
                0 <= j < i ==> (#[trigger] bodies@[j])@ == pattern_replaced(
                    SCRIPT_PATTERN@,
                    serialized_document(part_texts[j]),
                    ""@,
                ),
        decreases parts@.len() - i,
    {
        let part = parse_document(parts[i].as_str());
        let written = document_html(&part);
        bodies.push(replace_matches(&script, written.as_str(), ""));
        i = i + 1;
    }
    proof {
        assert(texts_view(bodies@) == body_parts(html@));
    }
    let writer_links = select_attrs(&document, &gonik_selector, "href");
    let views = select_texts(&document, &view_selector);
    let recommend_texts = select_texts(&document, &recommend_selector);
    let comment_cnts = select_texts(&document, &comment_cnt_selector);
    page_details_from_parts(&titles, &write_info, &bodies, &writer_links, &views, &recommend_texts, &comment_cnts)
}

/// The kind of a comment by its class: a reply where the class holds
/// `"add"`, else a comment.
pub open spec fn comment_kind(class: Seq<char>) -> Seq<char> {
    if contains_seq(class, "add"@) {
        "reply"@
    } else {
        "comment"@
    }
}

/// The writer's link of a comment: none where it is a script link.
pub open spec fn writer_link(links: Seq<char>) -> Seq<char> {
    if has_prefix(links, "javascript:"@) {
        Seq::empty()
    } else {
        links
    }
}

/// A comment, given what was read from its element: the writer, body and
/// date texts, its class and its link values; or why it could not be read.
pub open spec fn comment_from_parts(
    writers: Seq<Seq<char>>,
    paragraphs: Seq<Seq<char>>,
    dates: Seq<Seq<char>>,
    class: Option<Seq<char>>,
    links: Seq<Option<Seq<char>>>,
) -> Result<CommentView, ScrapeError> {
    match class {
        None => Err(ScrapeError::MissingAttribute),
        Some(c) => match joined_present(links) {
            None => Err(ScrapeError::MissingAttribute),
            Some(l) => Ok(
                CommentView {
                    writer: joined(writers),
                    writer_info: writer_link(l),
                    body: joined(paragraphs),
                    date: joined(dates),
                    comment_type: comment_kind(c),
                },
            ),
        },
    }
}

/// The first `n` comments, given what was read from each comment element;
/// or the first reason one could not be read.
pub open spec fn comments_upto(
    writers: Seq<Seq<Seq<char>>>,
    paragraphs: Seq<Seq<Seq<char>>>,
    dates: Seq<Seq<Seq<char>>>,
    classes: Seq<Option<Seq<char>>>,
    links: Seq<Seq<Option<Seq<char>>>>,
    n: nat,
) -> Result<Seq<CommentView>, ScrapeError>
    decreases n,
{
    if n == 0 {
        Ok(Seq::empty())
    } else {
        match comments_upto(writers, paragraphs, dates, classes, links, (n - 1) as nat) {
            Err(e) => Err(e),
            Ok(cs) => match comment_from_parts(
                writers[n - 1],
                paragraphs[n - 1],
                dates[n - 1],
                classes[n - 1],
                links[n - 1],
            ) {
                Ok(c) => Ok(cs.push(c)),
                Err(e) => Err(e),
            },
        }
    }
}

/// Once the first `k` comments fail, the first `m >= k` fail the same way.
proof fn lemma_comments_upto_err(
    writers: Seq<Seq<Seq<char>>>,
    paragraphs: Seq<Seq<Seq<char>>>,
    dates: Seq<Seq<Seq<char>>>,
    classes: Seq<Option<Seq<char>>>,
    links: Seq<Seq<Option<Seq<char>>>>,
    k: nat,
    m: nat,
)
    requires
        k <= m,
        comments_upto(writers, paragraphs, dates, classes, links, k) is Err,
    ensures
        comments_upto(writers, paragraphs, dates, classes, links, m) == comments_upto(
            writers,
            paragraphs,
            dates,
            classes,
            links,
            k,
        ),
    decreases m,
{
    if k < m {
        lemma_comments_upto_err(writers, paragraphs, dates, classes, links, k, (m - 1) as nat);
    }
}

/// Reading comments element by element fails only for a missing attribute.
proof fn lemma_comments_upto_missing(
    writers: Seq<Seq<Seq<char>>>,
    paragraphs: Seq<Seq<Seq<char>>>,
    dates: Seq<Seq<Seq<char>>>,
    classes: Seq<Option<Seq<char>>>,
    links: Seq<Seq<Option<Seq<char>>>>,
    n: nat,
)
    ensures
        comments_upto(writers, paragraphs, dates, classes, links, n) matches Err(e) ==> e
            == ScrapeError::MissingAttribute,
    decreases n,
{
    if n > 0 {
        lemma_comments_upto_missing(writers, paragraphs, dates, classes, links, (n - 1) as nat);
    }
}

/// The comments, given what was read from each comment element, where each
/// selection has one entry per comment; or why they could not be read.
pub open spec fn comments_from_selections(
    writers: Seq<Seq<Seq<char>>>,
    paragraphs: Seq<Seq<Seq<char>>>,
    dates: Seq<Seq<Seq<char>>>,
    classes: Seq<Option<Seq<char>>>,
    links: Seq<Seq<Option<Seq<char>>>>,
) -> Result<Seq<CommentView>, ScrapeError> {
    if writers.len() != classes.len() || paragraphs.len() != classes.len() || dates.len()
        != classes.len() || links.len() != classes.len() {
        Err(ScrapeError::MismatchedSelections)
    } else {
        comments_upto(writers, paragraphs, dates, classes, links, classes.len())
    }
}

/// A comment, given what was read from its element (see
/// `comment_from_parts`).
pub fn comment_from_selections(
    writers: &Vec<String>,
    paragraphs: &Vec<String>,
    dates: &Vec<String>,
    class: &Option<String>,
    links: &Vec<Option<String>>,
) -> (r: Result<CommentInfo, ScrapeError>)
    ensures
        match comment_from_parts(
            texts_view(writers@),
            texts_view(paragraphs@),
            texts_view(dates@),
            opt_view(*class),
            opt_texts_view(links@),
        ) {
            Ok(c) => r matches Ok(ci) && ci@ == c,
            Err(e) => r == Err::<CommentInfo, ScrapeError>(e),
        },
{
    let class_text = match class {
        Some(c) => c,
        None => return Err(ScrapeError::MissingAttribute),
    };
    let link_text = match join_present(links) {
        Some(l) => l,
        None => return Err(ScrapeError::MissingAttribute),
    };
    let comment_type = if contains(class_text.as_str(), "add") {
        String::from_str("reply")
    } else {
        String::from_str("comment")
    };
    let writer_info = if starts_with(link_text.as_str(), "javascript:") {
        String::new()
    } else {
        link_text
    };
    Ok(
        CommentInfo::new(
            join_texts(writers),
            writer_info,
            join_texts(paragraphs),
            join_texts(dates),
            comment_type,
        ),
    )
}

/// The comments, given what was read from each comment element (see
/// `comments_from_selections`).
pub fn comments_from_parts(
    writers: &Vec<Vec<String>>,
    paragraphs: &Vec<Vec<String>>,
    dates: &Vec<Vec<String>>,
    classes: &Vec<Option<String>>,
    links: &Vec<Vec<Option<String>>>,
) -> (r: Result<Vec<CommentInfo>, ScrapeError>)
    ensures
        match comments_from_selections(
            text_rows(writers@),
            text_rows(paragraphs@),
            text_rows(dates@),
            opt_texts_view(classes@),
            link_rows(links@),
        ) {
            Ok(cs) => r matches Ok(v) && comments_view(v@) == cs,
            Err(e) => r == Err::<Vec<CommentInfo>, ScrapeError>(e),
        },
{
    let n = classes.len();
    if writers.len() != n || paragraphs.len() != n || dates.len() != n || links.len() != n {
        return Err(ScrapeError::MismatchedSelections);
    }
    let ghost w = text_rows(writers@);
    let ghost p = text_rows(paragraphs@);
    let ghost d = text_rows(dates@);
    let ghost c = opt_texts_view(classes@);
    let ghost l = link_rows(links@);
    let mut out: Vec<CommentInfo> = Vec::new();
    let mut i: usize = 0;
    proof {
        assert(comments_view(out@) == Seq::<CommentView>::empty());
    }
    while i < n
        invariant
            n == classes@.len(),
            writers@.len() == n,
            paragraphs@.len() == n,
            dates@.len() == n,
            links@.len() == n,
            i <= n,
            w == text_rows(writers@),
            p == text_rows(paragraphs@),
            d == text_rows(dates@),
            c == opt_texts_view(classes@),
            l == link_rows(links@),
            comments_upto(w, p, d, c, l, i as nat) == Ok::<Seq<CommentView>, ScrapeError>(
                comments_view(out@),
            ),
        decreases n - i,
    {
        match comment_from_selections(&writers[i], &paragraphs[i], &dates[i], &classes[i], &links[i]) {
            Ok(comment) => {
                let ghost before = out@;
                out.push(comment);
                proof {
                    assert(comments_view(out@) == comments_view(before).push(comment@));
                }
            },
            Err(e) => {
                proof {
                    lemma_comments_upto_err(w, p, d, c, l, (i + 1) as nat, n as nat);
                }
                return Err(e);
            },
        }
        i = i + 1;
    }
    Ok(out)
}

/// Whether every selector read on the comment service's answer is accepted.
pub open spec fn comment_selectors_accepted() -> bool {
    &&& selector_accepted(COMMENT_SCRAPER@)
    &&& selector_accepted(COMMENT_WRITER_SCRAPER@)
    &&& selector_accepted(COMMENT_BODY_SCRAPER@)
    &&& selector_accepted(COMMENT_DATE_SCRAPER@)
    &&& selector_accepted(COMMENT_LINK_SCRAPER@)
}

/// The comments in the comment service's answer `html`, one per element
/// that `body > ul > li` matches, in order; or why they could not be read.
pub open spec fn reply_comments(html: Seq<char>) -> Result<Seq<CommentView>, ScrapeError> {
    if !comment_selectors_accepted() {
        Err(ScrapeError::InvalidSelector)
    } else {
        comments_upto(
            selected_inner_texts(html, COMMENT_SCRAPER@, COMMENT_WRITER_SCRAPER@),
            selected_inner_texts(html, COMMENT_SCRAPER@, COMMENT_BODY_SCRAPER@),
            selected_inner_texts(html, COMMENT_SCRAPER@, COMMENT_DATE_SCRAPER@),
            selected_attrs(html, COMMENT_SCRAPER@, "class"@),
            selected_inner_attrs(html, COMMENT_SCRAPER@, COMMENT_LINK_SCRAPER@, "href"@),
            selected_attrs(html, COMMENT_SCRAPER@, "class"@).len(),
        )
    }
}

/// The comments in the comment service's answer: for each `body > ul > li`
/// element, its writer, body and date texts, its kind by class, and its
/// writer's link.
///
/// Where an element lacks its class, or one of its links lacks an address,
/// the answer is `Err(MissingAttribute)` and no comment is returned; the
/// program that fetches the answer stops there with a panic.
pub fn comments_from_reply(html: &str) -> (r: Result<Vec<CommentInfo>, ScrapeError>)
    ensures
        match reply_comments(html@) {
            Ok(cs) => r matches Ok(v) && comments_view(v@) == cs,
            Err(e) => r == Err::<Vec<CommentInfo>, ScrapeError>(e),
        },
        !(r matches Err(ScrapeError::MismatchedSelections)),
{
    let item = page_selector(COMMENT_SCRAPER)?;
    let writer_selector = page_selector(COMMENT_WRITER_SCRAPER)?;
    let body_selector = page_selector(COMMENT_BODY_SCRAPER)?;
    let date_selector = page_selector(COMMENT_DATE_SCRAPER)?;
    let link_selector = page_selector(COMMENT_LINK_SCRAPER)?;
    let document = parse_document(html);
    let writers = select_inner_texts(&document, &item, &writer_selector);
    let paragraphs = select_inner_texts(&document, &item, &body_selector);
    let dates = select_inner_texts(&document, &item, &date_selector);
    let classes = select_attrs(&document, &item, "class");
    let links = select_inner_attrs(&document, &item, &link_selector, "href");
    proof {
        let n = selected_attrs(html@, COMMENT_SCRAPER@, "class"@).len();
        assert(selected_attrs(document@, item@, "class"@).len() == writers@.len());
        assert(selected_attrs(document@, item@, "class"@).len() == paragraphs@.len());
        assert(selected_attrs(document@, item@, "class"@).len() == dates@.len());
        assert(selected_attrs(document@, item@, "class"@).len() == links@.len());
        assert(opt_texts_view(classes@).len() == n);
        assert(text_rows(writers@).len() == n);
        assert(text_rows(paragraphs@).len() == n);
        assert(text_rows(dates@).len() == n);
        assert(link_rows(links@).len() == n);
        lemma_comments_upto_missing(
            text_rows(writers@),
            text_rows(paragraphs@),
            text_rows(dates@),
            opt_texts_view(classes@),
            link_rows(links@),
            n,
        );
    }
    comments_from_parts(&writers, &paragraphs, &dates, &classes, &links)
}

/// Every comment read is of kind `"reply"` or `"comment"`, and its writer's
/// link is never a script link, whatever was read from its element.
pub proof fn law_comment_kind_and_link(
    writers: Seq<Seq<char>>,
    paragraphs: Seq<Seq<char>>,
    dates: Seq<Seq<char>>,
    class: Option<Seq<char>>,
    links: Seq<Option<Seq<char>>>,
)
    ensures
        comment_from_parts(writers, paragraphs, dates, class, links) matches Ok(c) ==> {
            &&& c.comment_type == "reply"@ || c.comment_type == "comment"@
            &&& !has_prefix(c.writer_info, "javascript:"@)
        },
{
    reveal_strlit("javascript:");
}

/// The texts joined with each stripped of layout are the joined texts
/// stripped of layout.
proof fn lemma_joined_stripped(v: Seq<Seq<char>>)
    ensures
        joined_stripped(v) == strip_layout(joined(v)),
    decreases v.len(),
{
    if v.len() > 0 {
        lemma_joined_stripped(v.drop_last());
        lemma_strip_layout_concat(joined(v.drop_last()), v.last());
    } else {
        assert(strip_layout(Seq::<char>::empty()) == Seq::<char>::empty());
    }
}

/// The title and body read from an article's page are the page's title and
/// body parts, in order, with exactly their line feeds and tabs removed, so
/// neither holds a line feed or a tab.
pub proof fn law_page_text_without_layout(
    titles: Seq<Seq<char>>,
    write_info: Seq<Seq<char>>,
    bodies: Seq<Seq<char>>,
    writer_links: Seq<Option<Seq<char>>>,
    views: Seq<Seq<char>>,
    recommend_texts: Seq<Seq<char>>,
    comment_cnts: Seq<Seq<char>>,
)
    ensures
        details_from_parts(titles, write_info, bodies, writer_links, views, recommend_texts, comment_cnts)
            matches Ok(d) ==> {
            &&& d.body == strip_layout(joined(bodies))
            &&& d.title == strip_layout(joined(titles))
            &&& forall|i: int| 0 <= i < d.body.len() ==> #[trigger] d.body[i] != '\n' && d.body[i] != '\t'
            &&& forall|i: int| 0 <= i < d.title.len() ==> #[trigger] d.title[i] != '\n' && d.title[i] != '\t'
        },
{
    lemma_joined_stripped(bodies);
    lemma_joined_stripped(titles);
    law_strip_layout_leaves_none(joined(bodies));
    law_strip_layout_leaves_none(joined(titles));
}

/// Board-page items that each link to an article, as a board page of `page`
/// writes them, give those articles' numbers in order.
proof fn lemma_listed_links(rows: Seq<Seq<Option<Seq<char>>>>, ids: Seq<u32>, gallname: Seq<char>, page: u32)
    requires
        rows.len() == ids.len(),
        forall|k: int|
            0 <= k < ids.len() ==> #[trigger] rows[k] == seq![
                Some(article_address(gallname, ids[k]) + page_query(page)),
            ],
    ensures
        listed_ids(rows, page) == Ok::<Seq<u32>, ScrapeError>(ids),
    decreases rows.len(),
{
    if rows.len() > 0 {
        let n = rows.len() - 1;
        assert forall|k: int| 0 <= k < ids.drop_last().len() implies #[trigger] rows.drop_last()[k]
            == seq![Some(article_address(gallname, ids.drop_last()[k]) + page_query(page))] by {
            assert(rows.drop_last()[k] == rows[k]);
            assert(ids.drop_last()[k] == ids[k]);
        }
        lemma_listed_links(rows.drop_last(), ids.drop_last(), gallname, page);
        let url = article_address(gallname, ids[n]) + page_query(page);
        let row = rows.last();
        assert(row == rows[n]);
        assert(row.len() == 1);
        assert(row.last() == Some(url));
        assert(row.drop_last() == Seq::<Option<Seq<char>>>::empty());
        assert(joined_present(row.drop_last()) == Some(Seq::<char>::empty()));
        assert(Seq::<char>::empty() + url == url);
        assert(joined_present(row) == Some(url));
        reveal_strlit("?page=");
        assert(url.len() > 0);
        law_article_number_round_trip(gallname, ids[n], page);
        assert(list_entry(row, page) == Ok::<Option<u32>, ScrapeError>(Some(ids[n])));
        assert(ids.drop_last().push(ids[n]) == ids);
    } else {
        assert(ids == Seq::<u32>::empty());
    }
}

/// A board page of page `page`, whose items link to articles of gallery
/// `gallname` as the board writes them (the article's address followed by
/// the query of that same page), lists exactly those articles, in order,
/// each new with its number: the page's own query is removed before a
/// number is read, for every gallery, page and list of numbers.
pub proof fn law_listing_reads_page_numbers(gallname: Seq<char>, page: u32, html: Seq<char>, ids: Seq<u32>)
    requires
        selector_accepted(ROOT_SCRAPE@),
        selector_accepted(URL_SCRAPE@),
        list_page_rows(html).len() == ids.len(),
        forall|k: int|
            0 <= k < ids.len() ==> #[trigger] list_page_rows(html)[k] == seq![
                Some(article_address(gallname, ids[k]) + page_query(page)),
            ],
    ensures
        listed_articles(gallname, page, html) matches Ok(v) && v.len() == ids.len() && forall|k: int|
            0 <= k < ids.len() ==> {
                &&& #[trigger] v[k].id == ids[k]
                &&& v[k].gallname == gallname
                &&& v[k] == fresh_article(gallname, ids[k])
            },
{
    lemma_listed_links(list_page_rows(html), ids, gallname, page);
}

/// Reading comments element by element gives one comment per element, in
/// order: the `k`-th comment is what the `k`-th element's selections give.
pub proof fn law_comments_one_per_item(
    writers: Seq<Seq<Seq<char>>>,
    paragraphs: Seq<Seq<Seq<char>>>,
    dates: Seq<Seq<Seq<char>>>,
    classes: Seq<Option<Seq<char>>>,
    links: Seq<Seq<Option<Seq<char>>>>,
    n: nat,
)
    ensures
        comments_upto(writers, paragraphs, dates, classes, links, n) matches Ok(cs) ==> {
            &&& cs.len() == n
            &&& forall|k: int|
                0 <= k < n ==> comment_from_parts(
                    writers[k],
                    paragraphs[k],
                    dates[k],
                    classes[k],
                    links[k],
                ) == Ok::<CommentView, ScrapeError>(#[trigger] cs[k])
        },
    decreases n,
{
    if n > 0 {
        law_comments_one_per_item(writers, paragraphs, dates, classes, links, (n - 1) as nat);
        if let Ok(cs) = comments_upto(writers, paragraphs, dates, classes, links, n) {
            let prev = comments_upto(writers, paragraphs, dates, classes, links, (n - 1) as nat);
            assert(prev is Ok);
            let ps = prev->Ok_0;
            assert(cs == ps.push(cs[n - 1]));
            assert forall|k: int| 0 <= k < n implies comment_from_parts(
                writers[k],
                paragraphs[k],
                dates[k],
                classes[k],
                links[k],
            ) == Ok::<CommentView, ScrapeError>(#[trigger] cs[k]) by {
                if k < n - 1 {
                    assert(cs[k] == ps[k]);
                }
            }
        }
    }
}

} // verus!

use dcscrape::address::{article_url, list_page_url, save_dir, save_path};
use dcscrape::data_list::{ArticleList, CommentInfo};
use dcscrape::error::ScrapeError;
use dcscrape::scrape::{
    article_id_from_href, article_page_details, articles_from_links, articles_from_list_page,
    comment_from_selections, comments_from_parts, comments_from_reply, join_or_empty,
    join_present, join_stripped, join_texts, page_details_from_parts,
};

fn s(x: &str) -> String {
    x.to_string()
}

const LIST_PAGE: &str = "<html><body><div><div><div><section></section><section></section>\
<section><ul class=\"gall-detail-lst\">\
<li><div><a class=\"lt\" href=\"https://m.dcinside.com/board/programming/12345?page=1\">first</a></div></li>\
<li><div>advert, no link</div></li>\
<li><div><a class=\"lt\" href=\"https://m.dcinside.com/board/programming/12340?page=1\">second</a></div></li>\
</ul></section></div></div></div></body></html>";

const ARTICLE_PAGE: &str = "<html><body><div class=\"container\"><div><div>\
<section></section><section></section><section>\
<div class=\"gallview-tit-box\"><span>Title\n\tone</span>\
<div><ul><li>writer1</li><li>24.01.02 10:00</li></ul><div><a href=\"/gallog/abc\">g</a></div></div></div>\
<div class=\"gall-thum-btm\"><div><div class=\"thum-txt\"><p>Hello<script>track()</script> there</p></div>\
<ul><li>조회수 77</li><li><span>5</span></li><li><a><span>2</span></a></li></ul></div></div>\
</section></div></div></div></body></html>";

const REPLY: &str = "<ul>\
<li class=\"comment\"><a class=\"nick\" href=\"https://m.dcinside.com/gallog/user1\">nick1</a><p>hi</p><span class=\"date\">01.02 10:00</span></li>\
<li class=\"comment-add\"><a class=\"nick\" href=\"javascript:;\">nick2</a><p>re</p><span class=\"date\">01.02 10:01</span></li>\
</ul>";

fn numbers(v: &[ArticleList]) -> Vec<(u32, String)> {
    v.iter().map(|a| a.get_article_num()).collect()
}

#[test]
fn article_id_from_list_link() {
    assert_eq!(
        article_id_from_href("https://m.dcinside.com/board/programming/12345?page=1", 1),
        Ok(12345)
    );
    assert_eq!(article_id_from_href("https://m.dcinside.com/board/g/7?page=12", 12), Ok(7));
    assert_eq!(article_id_from_href("x/99", 3), Ok(99));
}

#[test]
fn article_id_errors() {
    assert_eq!(article_id_from_href("12345?page=1", 1), Err(ScrapeError::MissingSlash));
    assert_eq!(article_id_from_href("a/b?page=1", 1), Err(ScrapeError::InvalidNumber));
    assert_eq!(article_id_from_href("a/5?page=2", 1), Err(ScrapeError::InvalidNumber));
}

#[test]
fn law_article_number_round_trip_values() {
    for (g, id, page) in [("programming", 12345u32, 1u32), ("", 0, 0), ("a/b", u32::MAX, 99)] {
        let href = format!("{}?page={}", article_url(g, id), page);
        assert_eq!(article_id_from_href(&href, page), Ok(id));
    }
}

#[test]
fn addresses() {
    assert_eq!(list_page_url("programming", 1), "https://m.dcinside.com/board/programming?page=1");
    assert_eq!(article_url("programming", 12345), "https://m.dcinside.com/board/programming/12345");
    assert_eq!(save_dir("programming", "24-01-02 10:00:00"), "data/programming/24-01-02 10:00:00");
    assert_eq!(save_path("g", "stamp", 42), "data/g/stamp/42.txt");
}

#[test]
fn list_page_gives_articles_in_order() {
    let v = articles_from_list_page("programming", 1, LIST_PAGE).unwrap();
    assert_eq!(numbers(&v), vec![(12345, s("programming")), (12340, s("programming"))]);
}

#[test]
fn list_page_without_items() {
    let v = articles_from_list_page("g", 1, "<html><body></body></html>").unwrap();
    assert!(v.is_empty());
}

#[test]
fn list_page_missing_href() {
    let page = LIST_PAGE.replace("<a class=\"lt\" href=\"https://m.dcinside.com/board/programming/12340?page=1\">", "<a class=\"lt\">");
    assert_eq!(articles_from_list_page("programming", 1, &page).unwrap_err(), ScrapeError::MissingAttribute);
}

#[test]
fn articles_from_links_rules() {
    let links = vec![
        vec![Some(s("https://m.dcinside.com/board/g/3?page=2"))],
        vec![],
        vec![Some(s("")), Some(s(""))],
        vec![Some(s("https://m.dcinside.com/board/g/")), Some(s("4?page=2"))],
    ];
    let v = articles_from_links("g", 2, &links).unwrap();
    assert_eq!(numbers(&v), vec![(3, s("g")), (4, s("g"))]);
    let bad = vec![vec![Some(s("a/1"))], vec![Some(s("a/x"))], vec![None]];
    assert_eq!(articles_from_links("g", 2, &bad).unwrap_err(), ScrapeError::InvalidNumber);
    let absent = vec![vec![Some(s("a/1")), None]];
    assert_eq!(articles_from_links("g", 2, &absent).unwrap_err(), ScrapeError::MissingAttribute);
    let no_slash = vec![vec![Some(s("17"))]];
    assert_eq!(articles_from_links("g", 2, &no_slash).unwrap_err(), ScrapeError::MissingSlash);
}

#[test]
fn joins() {
    assert_eq!(join_texts(&vec![s("a"), s(""), s("bc")]), "abc");
    assert_eq!(join_stripped(&vec![s("a\n"), s("\tb")]), "ab");
    assert_eq!(join_present(&vec![Some(s("a")), Some(s("b"))]), Some(s("ab")));
    assert_eq!(join_present(&vec![Some(s("a")), None]), None);
    assert_eq!(join_present(&vec![]), Some(String::new()));
    assert_eq!(join_or_empty(&vec![Some(s("a")), None, Some(s("c"))]), "ac");
}

#[test]
fn article_page_details_read() {
    let d = article_page_details(ARTICLE_PAGE).unwrap();
    assert_eq!(d.title, "Titleone");
    assert_eq!(d.writer, "writer1");
    assert_eq!(d.time, "24.01.02 10:00");
    assert_eq!(d.writer_info, "/gallog/abc");
    assert_eq!(d.view, 77);
    assert_eq!(d.recommend, 5);
    assert_eq!(d.comment_cnt, 2);
    assert!(d.body.contains("<div class=\"thum-txt\"><p>Hello there</p></div>"));
    assert!(!d.body.contains("script"));
    assert!(!d.body.contains('\n'));
}

#[test]
fn article_page_missing_write_info() {
    let page = ARTICLE_PAGE.replace("<li>24.01.02 10:00</li>", "");
    assert_eq!(article_page_details(&page).err(), Some(ScrapeError::MissingWriteInfo));
}

#[test]
fn article_page_bad_count() {
    let page = ARTICLE_PAGE.replace("<span>5</span>", "<span>five</span>");
    assert_eq!(article_page_details(&page).err(), Some(ScrapeError::InvalidNumber));
}

#[test]
fn page_details_from_parts_rules() {
    let d = page_details_from_parts(
        &vec![s("T\n1"), s("\t2")],
        &vec![s("w"), s("t"), s("extra")],
        &vec![s("<b>\n</b>")],
        &vec![None, Some(s("/x"))],
        &vec![s("조회수 1"), s("2")],
        &vec![s("+3")],
        &vec![],
    );
    assert_eq!(d.err(), Some(ScrapeError::InvalidNumber));
    let d = page_details_from_parts(
        &vec![s("T\n1"), s("\t2")],
        &vec![s("w"), s("t"), s("extra")],
        &vec![s("<b>\n</b>")],
        &vec![None, Some(s("/x"))],
        &vec![s("조회수 1"), s("2")],
        &vec![s("+3")],
        &vec![s("0")],
    )
    .unwrap();
    assert_eq!(d.title, "T12");
    assert_eq!(d.body, "<b></b>");
    assert_eq!((d.writer.as_str(), d.time.as_str()), ("w", "t"));
    assert_eq!(d.writer_info, "/x");
    assert_eq!((d.view, d.recommend, d.comment_cnt), (12, 3, 0));
    let short = page_details_from_parts(&vec![], &vec![s("w")], &vec![], &vec![], &vec![s("1")], &vec![s("1")], &vec![s("1")]);
    assert_eq!(short.err(), Some(ScrapeError::MissingWriteInfo));
}

fn rendered_comments(v: Vec<CommentInfo>) -> String {
    let mut a = ArticleList::new(s("g"), 1);
    a.update_list(String::new(), String::new(), String::new(), String::new(), String::new(), 0, 0, v, 0);
    let text = a.render_article("");
    let start = text.find("[댓글]\n").unwrap() + "[댓글]\n".len();
    let end = text.rfind("\nRAW\n").unwrap();
    text[start..end].to_string()
}

#[test]
fn comments_from_reply_read() {
    let v = comments_from_reply(REPLY).unwrap();
    assert_eq!(v.len(), 2);
    assert_eq!(
        format!("{:?}", v[0]),
        "CommentInfo { writer: \"nick1\", writer_info: \"https://m.dcinside.com/gallog/user1\", body: \"hi\", date: \"01.02 10:00\", comment_type: \"comment\" }"
    );
    assert_eq!(
        rendered_comments(v),
        "nick1 [user1]: hi |01.02 10:00|comment|\nnick2 []: re |01.02 10:01|reply|\n"
    );
}

#[test]
fn comments_from_empty_reply() {
    assert!(comments_from_reply("").unwrap().is_empty());
}

#[test]
fn comment_missing_class() {
    let reply = REPLY.replace("<li class=\"comment\">", "<li>");
    assert_eq!(comments_from_reply(&reply).unwrap_err(), ScrapeError::MissingAttribute);
}

#[test]
fn law_comment_kind_and_link_values() {
    let c = comment_from_selections(&vec![s("n")], &vec![s("b")], &vec![s("d")], &Some(s("comment-add")), &vec![Some(s("javascript:go()"))]).unwrap();
    assert_eq!(format!("{:?}", c), "CommentInfo { writer: \"n\", writer_info: \"\", body: \"b\", date: \"d\", comment_type: \"reply\" }");
    let c = comment_from_selections(&vec![], &vec![s("b1"), s("b2")], &vec![], &Some(s("comment")), &vec![Some(s("/gallog/")), Some(s("u"))]).unwrap();
    assert_eq!(format!("{:?}", c), "CommentInfo { writer: \"\", writer_info: \"/gallog/u\", body: \"b1b2\", date: \"\", comment_type: \"comment\" }");
    let e = comment_from_selections(&vec![], &vec![], &vec![], &Some(s("comment")), &vec![None]);
    assert_eq!(e.err(), Some(ScrapeError::MissingAttribute));
    let e = comment_from_selections(&vec![], &vec![], &vec![], &None, &vec![]);
    assert_eq!(e.err(), Some(ScrapeError::MissingAttribute));
}

#[test]
fn comments_from_parts_mismatch() {
    let r = comments_from_parts(&vec![vec![]], &vec![], &vec![vec![]], &vec![Some(s("comment"))], &vec![vec![]]);
    assert_eq!(r.err(), Some(ScrapeError::MismatchedSelections));
    let r = comments_from_parts(&vec![vec![s("a")]], &vec![vec![s("b")]], &vec![vec![s("c")]], &vec![Some(s("x add"))], &vec![vec![]]).unwrap();
    assert_eq!(rendered_comments(r), "a []: b |c|reply|\n");
}

#[test]
fn comments_one_per_item_in_order() {
    let reply = "<ul><li class=\"a\"><p>one</p></li><li class=\"b\"></li><li class=\"add\"><p>x</p><p>y</p></li></ul>";
    let v = comments_from_reply(reply).unwrap();
    assert_eq!(rendered_comments(v), " []: one ||comment|\n []:  ||comment|\n []: xy ||reply|\n");
}

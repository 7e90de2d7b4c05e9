use dcscrape::data_list::{ArticleList, CommentInfo};

fn sample_comments() -> Vec<CommentInfo> {
    vec![
        CommentInfo::new(
            "nick1".to_string(),
            "https://m.dcinside.com/gallog/user1".to_string(),
            "hi".to_string(),
            "01.02 10:00".to_string(),
            "comment".to_string(),
        ),
        CommentInfo::new(
            "nick2".to_string(),
            String::new(),
            "re".to_string(),
            "01.02 10:01".to_string(),
            "reply".to_string(),
        ),
    ]
}

fn sample_article() -> ArticleList {
    let mut a = ArticleList::new("programming".to_string(), 12345);
    a.update_list(
        "<p>Hello</p>".to_string(),
        "Title".to_string(),
        "writer1".to_string(),
        "24.01.02 10:00".to_string(),
        "/gallog/abc".to_string(),
        5,
        2,
        sample_comments(),
        77,
    );
    a
}

#[test]
fn new_article_number() {
    let a = ArticleList::new("programming".to_string(), 42);
    assert_eq!(a.get_article_num(), (42, "programming".to_string()));
}

#[test]
fn law_number_kept_after_update() {
    let a = sample_article();
    assert_eq!(a.get_article_num(), (12345, "programming".to_string()));
}

#[test]
fn render_article_exact_text() {
    let a = sample_article();
    let text = a.render_article("Hello");
    let expected = "작성자:writer1 [/gallog/abc]\nTitle\n24.01.02 10:00\t조회: 77\t추천: 5\t댓글: 2\n\nHello\n\n[댓글]\n\
nick1 [user1]: hi |01.02 10:00|comment|\n\
nick2 []: re |01.02 10:01|reply|\n\
\nRAW\n<p>Hello</p>";
    assert_eq!(text, expected);
}

#[test]
fn render_fresh_article() {
    let a = ArticleList::new("g".to_string(), 1);
    assert_eq!(
        a.render_article(""),
        "작성자: []\n\n\t조회: 0\t추천: 0\t댓글: 0\n\n\n\n[댓글]\n\nRAW\n"
    );
}

#[test]
fn law_saved_text_frame_values() {
    let a = sample_article();
    let text = a.render_article("whatever body text");
    assert!(text.starts_with("작성자:writer1"));
    assert!(text.ends_with("\nRAW\n<p>Hello</p>"));
}

#[test]
fn sort_article_renders_and_marks_images() {
    let mut a = ArticleList::new("g".to_string(), 7);
    a.update_list(
        "<p>before <a href=\"https://example.com/x\">link</a> after</p>".to_string(),
        "t".to_string(),
        "w".to_string(),
        "time".to_string(),
        "".to_string(),
        0,
        0,
        Vec::new(),
        3,
    );
    let text = a.sort_article().unwrap();
    assert!(text.starts_with("작성자:w []\nt\ntime\t조회: 3\t추천: 0\t댓글: 0\n\n"));
    assert!(text.contains("[IMAGE]"));
    assert!(text.ends_with("\nRAW\n<p>before <a href=\"https://example.com/x\">link</a> after</p>"));
    // The body is rendered as text: no tags remain before the raw copy.
    let head = text.split("\n\n[댓글]\n").next().unwrap();
    assert!(!head.contains("<p>"));
    assert!(head.contains("before"));
}

#[test]
fn sort_article_plain_body() {
    let mut a = ArticleList::new("g".to_string(), 7);
    a.update_list("<p>plain words</p>".to_string(), String::new(), String::new(), String::new(),
        String::new(), 1, 0, Vec::new(), 2);
    let text = a.sort_article().unwrap();
    assert!(text.contains("\n\nplain words"));
    assert!(!text.contains("[IMAGE]"));
}

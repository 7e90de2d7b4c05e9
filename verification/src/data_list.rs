//! Articles of a gallery with their comments, and the text an article is
//! saved as.
use vstd::prelude::*;

use crate::constants::{IMAGE_PATTERN, TEXT_WIDTH};
use crate::error::ScrapeError;
use crate::outside::{compile_pattern, html_to_text, pattern_accepted, pattern_replaced, rendered_text, replace_matches};
use crate::text::{after_last_slash_of, decimal, has_prefix, last_segment, push_decimal};

verus! {

/// What a comment holds.
pub ghost struct CommentView {
    pub writer: Seq<char>,
    pub writer_info: Seq<char>,
    pub body: Seq<char>,
    pub date: Seq<char>,
    pub comment_type: Seq<char>,
}

/// What an article holds.
pub ghost struct ArticleView {
    pub gallname: Seq<char>,
    pub id: u32,
    pub title: Seq<char>,
    pub time: Seq<char>,
    pub writer: Seq<char>,
    pub writer_info: Seq<char>,
    pub view: u32,
    pub body: Seq<char>,
    pub comment_cnt: u32,
    pub comments: Seq<CommentView>,
    pub recommend: u32,
}

/// One article of a gallery.
#[derive(Debug)]
pub struct ArticleList {
    gallname: String,
    id: u32,
    title: String,
    time: String,
    writer: String,
    writer_info: String,
    view: u32,
    body: String,
    comment_cnt: u32,
    comment: Vec<CommentInfo>,
    recommend: u32,
}

/// One comment below an article.
#[derive(Debug)]
pub struct CommentInfo {
    writer: String,
    writer_info: String,
    body: String,
    date: String,
    comment_type: String,
}

impl View for CommentInfo {
    type V = CommentView;

    closed spec fn view(&self) -> CommentView {
        CommentView {
            writer: self.writer@,
            writer_info: self.writer_info@,
            body: self.body@,
            date: self.date@,
            comment_type: self.comment_type@,
        }
    }
}

/// The views of a list of comments.
pub open spec fn comments_view(v: Seq<CommentInfo>) -> Seq<CommentView> {
    v.map_values(|c: CommentInfo| c@)
}

impl View for ArticleList {
    type V = ArticleView;

    closed spec fn view(&self) -> ArticleView {
        ArticleView {
            gallname: self.gallname@,
            id: self.id,
            title: self.title@,
            time: self.time@,
            writer: self.writer@,
            writer_info: self.writer_info@,
            view: self.view,
            body: self.body@,
            comment_cnt: self.comment_cnt,
            comments: comments_view(self.comment@),
            recommend: self.recommend,
        }
    }
}

/// An article known only by its gallery and number: every other text is
/// empty and every count is zero.
pub open spec fn fresh_article(gallname: Seq<char>, id: u32) -> ArticleView {
    ArticleView {
        gallname,
        id,
        title: Seq::empty(),
        time: Seq::empty(),
        writer: Seq::empty(),
        writer_info: Seq::empty(),
        view: 0,
        body: Seq::empty(),
        comment_cnt: 0,
        comments: Seq::empty(),
        recommend: 0,
    }
}

/// `a` with everything read from its page replaced; its gallery and number
/// stay.
pub open spec fn updated_article(
    a: ArticleView,
    body: Seq<char>,
    title: Seq<char>,
    writer: Seq<char>,
    time: Seq<char>,
    writer_info: Seq<char>,
    recommend: u32,
    comment_cnt: u32,
    comments: Seq<CommentView>,
    view: u32,
) -> ArticleView {
    ArticleView {
        gallname: a.gallname,
        id: a.id,
        title,
        time,
        writer,
        writer_info,
        view,
        body,
        comment_cnt,
        comments,
        recommend,
    }
}

/// The part of a comment's writer link after its last `'/'`, or nothing.
pub open spec fn writer_tag(writer_info: Seq<char>) -> Seq<char> {
    match last_segment(writer_info) {
        Some(t) => t,
        None => Seq::empty(),
    }
}

/// The line a comment is saved as: `"{writer} [{tag}]: {body} |{date}|{type}|\n"`.
pub open spec fn comment_line(c: CommentView) -> Seq<char> {
    c.writer + " ["@ + writer_tag(c.writer_info) + "]: "@ + c.body + " |"@ + c.date + "|"@
        + c.comment_type + "|\n"@
}

/// The lines of the comments, in order.
pub open spec fn comment_lines(cs: Seq<CommentView>) -> Seq<char>
    decreases cs.len(),
{
    if cs.len() == 0 {
        Seq::empty()
    } else {
        comment_lines(cs.drop_last()) + comment_line(cs.last())
    }
}

/// The head of a saved article: writer, title, time, counts, then the body
/// as text (`stripped`) and the heading of the comments.
pub open spec fn article_header(a: ArticleView, stripped: Seq<char>) -> Seq<char> {
    "작성자:"@ + a.writer + " ["@ + a.writer_info + "]\n"@ + a.title + "\n"@ + a.time
        + "\t조회: "@ + decimal(a.view as nat) + "\t추천: "@ + decimal(a.recommend as nat)
        + "\t댓글: "@ + decimal(a.comment_cnt as nat) + "\n\n"@ + stripped + "\n\n[댓글]\n"@
}

/// The text an article is saved as, given its body as text: the head, one
/// line per comment, then the raw body.
pub open spec fn article_text(a: ArticleView, stripped: Seq<char>) -> Seq<char> {
    article_header(a, stripped) + comment_lines(a.comments) + "\nRAW\n"@ + a.body
}

/// The body of an article as text, with bracketed spans marked as images;
/// or why it could not be had.
pub open spec fn marked_body(body: Seq<char>) -> Result<Seq<char>, ScrapeError> {
    if !pattern_accepted(IMAGE_PATTERN@) {
        Err(ScrapeError::InvalidPattern)
    } else {
        match rendered_text(body, TEXT_WIDTH) {
            Some(t) => Ok(pattern_replaced(IMAGE_PATTERN@, t, "[IMAGE]"@)),
            None => Err(ScrapeError::TextRenderFailed),
        }
    }
}

/// The saved text of an article, or why it could not be had.
pub open spec fn saved_article(a: ArticleView) -> Result<Seq<char>, ScrapeError> {
    match marked_body(a.body) {
        Ok(t) => Ok(article_text(a, t)),
        Err(e) => Err(e),
    }
}

impl ArticleList {
    /// An article of gallery `gallname` with number `id`, nothing read yet.
    pub fn new(gallname: String, id: u32) -> (r: ArticleList)
        ensures
            r@ == fresh_article(gallname@, id),
    {
        let r = ArticleList {
            gallname: gallname,
            id: id,
            title: String::new(),
            time: String::new(),
            writer: String::new(),
            writer_info: String::new(),
            view: 0,
            body: String::new(),
            comment_cnt: 0,
            comment: Vec::new(),
            recommend: 0,
        };
        proof {
            assert(comments_view(r.comment@) == Seq::<CommentView>::empty());
        }
        r
    }

    /// The article's number and gallery.
    pub fn get_article_num(&self) -> (r: (u32, String))
        ensures
            r.0 == self@.id,
            r.1@ == self@.gallname,
    {
        (self.id, self.gallname.clone())
    }

    /// Replaces everything read from the article's page.
    pub fn update_list(
        &mut self,
        body: String,
        title: String,
        writer: String,
        time: String,
        writer_info: String,
        recommend: u32,
        comment_cnt: u32,
        comment: Vec<CommentInfo>,
        view: u32,
    )
        ensures
            final(self)@ == updated_article(
                old(self)@,
                body@,
                title@,
                writer@,
                time@,
                writer_info@,
                recommend,
                comment_cnt,
                comments_view(comment@),
                view,
            ),
    {
        self.body = body;
        self.title = title;
        self.writer = writer;
        self.time = time;
        self.writer_info = writer_info;
        self.recommend = recommend;
        self.comment_cnt = comment_cnt;
        self.comment = comment;
        self.view = view;
    }

    /// The text the article is saved as, given its body already rendered as
    /// text.
    pub fn render_article(&self, stripped: &str) -> (r: String)
        ensures
            r@ == article_text(self@, stripped@),
    {
        let mut out = String::from_str("작성자:");
        out.append(self.writer.as_str());
        out.append(" [");
        out.append(self.writer_info.as_str());
        out.append("]\n");
        out.append(self.title.as_str());
        out.append("\n");
        out.append(self.time.as_str());
        out.append("\t조회: ");
        push_decimal(&mut out, self.view);
        out.append("\t추천: ");
        push_decimal(&mut out, self.recommend);
        out.append("\t댓글: ");
        push_decimal(&mut out, self.comment_cnt);
        out.append("\n\n");
        out.append(stripped);
        out.append("\n\n[댓글]\n");
        let ghost header = out@;
        let ghost cs = comments_view(self.comment@);
        proof {
            assert(header == article_header(self@, stripped@));
            assert(cs.take(0) == Seq::<CommentView>::empty());
            assert(header + comment_lines(cs.take(0)) == header);
        }
        let mut i: usize = 0;
        while i < self.comment.len()
            invariant
                i <= self.comment@.len(),
                cs == comments_view(self.comment@),
                out@ == header + comment_lines(cs.take(i as int)),
            decreases self.comment@.len() - i,
        {
            let line = comment_text(&self.comment[i]);
            out.append(line.as_str());
            proof {
                assert(cs.take(i + 1).drop_last() == cs.take(i as int));
                assert(cs.take(i + 1).last() == self.comment@[i as int]@);
                assert(comment_lines(cs.take(i + 1)) == comment_lines(cs.take(i as int))
                    + comment_line(self.comment@[i as int]@));
                assert(out@ == header + comment_lines(cs.take(i + 1)));
            }
            i = i + 1;
        }
        proof {
            assert(cs.take(self.comment@.len() as int) == cs);
        }
        out.append("\nRAW\n");
        out.append(self.body.as_str());
        out
    }

    /// The text the article is saved as: its body rendered as text at 150
    /// columns with bracketed spans marked `[IMAGE]`, its comments and its
    /// raw body.
    pub fn sort_article(&self) -> (r: Result<String, ScrapeError>)
        ensures
            match saved_article(self@) {
                Ok(t) => r matches Ok(s) && s@ == t,
                Err(e) => r == Err::<String, ScrapeError>(e),
            },
    {
        let pattern = match compile_pattern(IMAGE_PATTERN) {
            Some(p) => p,
            None => return Err(ScrapeError::InvalidPattern),
        };
        let stripped = match html_to_text(self.body.as_str(), TEXT_WIDTH) {
            Ok(t) => t,
            Err(_) => return Err(ScrapeError::TextRenderFailed),
        };
        let marked = replace_matches(&pattern, stripped.as_str(), "[IMAGE]");
        Ok(self.render_article(marked.as_str()))
    }
}

/// The line a comment is saved as.
fn comment_text(c: &CommentInfo) -> (r: String)
    ensures
        r@ == comment_line(c@),
{
    let mut line = c.writer.clone();
    line.append(" [");
    match after_last_slash_of(c.writer_info.as_str()) {
        Some(t) => line.append(t.as_str()),
        None => {},
    }
    line.append("]: ");
    line.append(c.body.as_str());
    line.append(" |");
    line.append(c.date.as_str());
    line.append("|");
    line.append(c.comment_type.as_str());
    line.append("|\n");
    proof {
        let tag = writer_tag(c.writer_info@);
        assert(line@ == c@.writer + " ["@ + tag + "]: "@ + c@.body + " |"@ + c@.date + "|"@
            + c@.comment_type + "|\n"@);
    }
    line
}

impl CommentInfo {
    /// A comment with the given fields.
    pub fn new(
        writer: String,
        writer_info: String,
        body: String,
        date: String,
        comment_type: String,
    ) -> (r: CommentInfo)
        ensures
            r@ == (CommentView {
                writer: writer@,
                writer_info: writer_info@,
                body: body@,
                date: date@,
                comment_type: comment_type@,
            }),
    {
        CommentInfo {
            writer: writer,
            writer_info: writer_info,
            body: body,
            date: date,
            comment_type: comment_type,
        }
    }
}

/// An article's number and gallery are what it was made with, and reading
/// its page does not change them: `get_article_num` after `new` gives back
/// `new`'s arguments, and after any `update_list` the same as before.
pub proof fn law_number_kept(
    gallname: Seq<char>,
    id: u32,
    a: ArticleView,
    body: Seq<char>,
    title: Seq<char>,
    writer: Seq<char>,
    time: Seq<char>,
    writer_info: Seq<char>,
    recommend: u32,
    comment_cnt: u32,
    comments: Seq<CommentView>,
    view: u32,
)
    ensures
        fresh_article(gallname, id).gallname == gallname,
        fresh_article(gallname, id).id == id,
        updated_article(a, body, title, writer, time, writer_info, recommend, comment_cnt, comments, view).gallname
            == a.gallname,
        updated_article(a, body, title, writer, time, writer_info, recommend, comment_cnt, comments, view).id
            == a.id,
{
}

/// The saved text of an article opens with its writer and closes with its
/// raw body, whatever the article and its rendered body.
pub proof fn law_saved_text_frame(a: ArticleView, stripped: Seq<char>)
    ensures
        has_prefix(article_text(a, stripped), "작성자:"@ + a.writer),
        article_text(a, stripped).subrange(
            article_text(a, stripped).len() - ("\nRAW\n"@ + a.body).len(),
            article_text(a, stripped).len() as int,
        ) == "\nRAW\n"@ + a.body,
{
    let t = article_text(a, stripped);
    let head = "작성자:"@ + a.writer;
    let rest = " ["@ + a.writer_info + "]\n"@ + a.title + "\n"@ + a.time + "\t조회: "@ + decimal(
        a.view as nat,
    ) + "\t추천: "@ + decimal(a.recommend as nat) + "\t댓글: "@ + decimal(a.comment_cnt as nat)
        + "\n\n"@ + stripped + "\n\n[댓글]\n"@ + comment_lines(a.comments) + "\nRAW\n"@ + a.body;
    assert(t == head + rest);
    assert(t.take(head.len() as int) == head);
    let front = article_header(a, stripped) + comment_lines(a.comments);
    let tail = "\nRAW\n"@ + a.body;
    assert(t == front + tail);
    assert(t.subrange(t.len() - tail.len(), t.len() as int) == tail);
}

/// The head of the saved text gives the article's writer, link, title and
/// time, then its view, recommendation and comment counts as decimals (the
/// counts it was updated with, whatever comments it holds), then the body
/// as text and the comment heading.
pub proof fn law_saved_text_head(a: ArticleView, stripped: Seq<char>)
    ensures
        has_prefix(
            article_text(a, stripped),
            "작성자:"@ + a.writer + " ["@ + a.writer_info + "]\n"@ + a.title + "\n"@ + a.time
                + "\t조회: "@ + decimal(a.view as nat) + "\t추천: "@ + decimal(a.recommend as nat)
                + "\t댓글: "@ + decimal(a.comment_cnt as nat) + "\n\n"@ + stripped
                + "\n\n[댓글]\n"@,
        ),
{
    let head = "작성자:"@ + a.writer + " ["@ + a.writer_info + "]\n"@ + a.title + "\n"@ + a.time
        + "\t조회: "@ + decimal(a.view as nat) + "\t추천: "@ + decimal(a.recommend as nat)
        + "\t댓글: "@ + decimal(a.comment_cnt as nat) + "\n\n"@ + stripped + "\n\n[댓글]\n"@;
    let t = article_text(a, stripped);
    let rest = comment_lines(a.comments) + "\nRAW\n"@ + a.body;
    assert(t == head + rest);
    assert(t.take(head.len() as int) == head);
}

/// An update leaves exactly the values it was given: every field read from
/// the page, and the comments passed in (not added to those held before).
/// What it leaves depends only on the article's gallery and number, so two
/// articles with the same number end up equal, and repeating an update
/// changes nothing.
pub proof fn law_update_replaces(
    a: ArticleView,
    b: ArticleView,
    body: Seq<char>,
    title: Seq<char>,
    writer: Seq<char>,
    time: Seq<char>,
    writer_info: Seq<char>,
    recommend: u32,
    comment_cnt: u32,
    comments: Seq<CommentView>,
    view: u32,
)
    requires
        a.gallname == b.gallname,
        a.id == b.id,
    ensures
        ({
            let u = updated_article(a, body, title, writer, time, writer_info, recommend, comment_cnt, comments, view);
            &&& u.comments == comments
            &&& u.comments.len() == comments.len()
            &&& u.body == body
            &&& u.title == title
            &&& u.writer == writer
            &&& u.time == time
            &&& u.writer_info == writer_info
            &&& u.recommend == recommend
            &&& u.comment_cnt == comment_cnt
            &&& u.view == view
            &&& u.gallname == a.gallname
            &&& u.id == a.id
            &&& u == updated_article(b, body, title, writer, time, writer_info, recommend, comment_cnt, comments, view)
            &&& updated_article(u, body, title, writer, time, writer_info, recommend, comment_cnt, comments, view) == u
        }),
{
}

} // verus!

//! Addresses, CSS selectors and patterns of the mobile gallery pages.
use vstd::prelude::*;

verus! {

pub const UA: &'static str = "Mozilla/5.0 (Linux; Android 10; SM-G980F Build/QP1A.190711.020; wv) AppleWebKit/537.36 (KHTML, like Gecko) Version/4.0 Chrome/78.0.3904.96 Mobile Safari/537.36";

pub const ROOT_SCRAPE: &'static str = "body > div > div > div > section:nth-child(3) > ul.gall-detail-lst > li:nth-child(n)";

pub const URL_SCRAPE: &'static str = "div > a.lt";

pub const ARTICLE_ROOT_SCRAPER: &'static str = "body > div.container > div > div > section:nth-child(3) > div.gallview-tit-box > span";

pub const ARTICLE_WRITE_SCRAPER: &'static str = "body > div.container > div > div > section:nth-child(3) > div.gallview-tit-box > div > ul > li:nth-child(n)";

pub const ARTICLE_GONIC_CHECK_SCRAPER: &'static str = "body > div.container > div > div > section:nth-child(3) > div.gallview-tit-box > div > div > a";

pub const ARTICLE_BODY_SCRAPER: &'static str = "body > div.container > div > div > section:nth-child(3) > div.gall-thum-btm > div > div.thum-txt";

pub const ARTICLE_VIEW_SCRAPER: &'static str = "body > div.container > div > div > section:nth-child(3) > div.gall-thum-btm > div > ul > li:nth-child(1)";

pub const ARTICLE_RECOMMEND_SCRAPER: &'static str = "body > div.container > div > div > section:nth-child(3) > div.gall-thum-btm > div > ul > li:nth-child(2) > span";

pub const ARTICLE_COMMENT_CNT_SCRAPER: &'static str = "body > div.container > div > div > section:nth-child(3) > div.gall-thum-btm > div > ul > li:nth-child(3) > a > span";

pub const COMMENT_SCRAPER: &'static str = "body > ul > li";

pub const COMMENT_REQUEST_URL: &'static str = "https://m.dcinside.com/ajax/response-comment";

/// Selectors read inside each comment.
pub const COMMENT_WRITER_SCRAPER: &'static str = "a.nick";

pub const COMMENT_BODY_SCRAPER: &'static str = "p";

pub const COMMENT_DATE_SCRAPER: &'static str = "span.date";

pub const COMMENT_LINK_SCRAPER: &'static str = "a";

/// Bracketed spans that the text rendering leaves for images and links.
pub const IMAGE_PATTERN: &'static str = r"\[([^\[\]]+)\]";

/// Script elements in an article body.
pub const SCRIPT_PATTERN: &'static str = "<script\\b[^>]*>([\\s\\S]*?)</script>";

/// The column width at which an article body is rendered as text.
pub const TEXT_WIDTH: usize = 150;

/// The address of the mobile gallery boards.
pub const BOARD_URL: &'static str = "https://m.dcinside.com/board/";

} // verus!

//! Where the gallery's pages are fetched from and where articles are saved.
use vstd::prelude::*;

use crate::constants::BOARD_URL;
use crate::error::ScrapeError;
use crate::scrape::{href_article_id, page_query};
use crate::text::{
    decimal, has_prefix, is_digit, last_segment, law_decimal_round_trip, lemma_decimal_digits,
    parsed_u32, push_decimal, replaced,
};

verus! {

/// The address of board page `page` of gallery `gallname`.
pub open spec fn list_page_address(gallname: Seq<char>, page: u32) -> Seq<char> {
    BOARD_URL@ + gallname + page_query(page)
}

/// The address of article `id` of gallery `gallname`.
pub open spec fn article_address(gallname: Seq<char>, id: u32) -> Seq<char> {
    BOARD_URL@ + gallname + "/"@ + decimal(id as nat)
}

/// The directory the articles of gallery `gallname` are saved in, for a run
/// stamped `stamp`.
pub open spec fn save_directory(gallname: Seq<char>, stamp: Seq<char>) -> Seq<char> {
    "data/"@ + gallname + "/"@ + stamp
}

/// The file article `id` of gallery `gallname` is saved in, for a run
/// stamped `stamp`.
pub open spec fn save_file(gallname: Seq<char>, stamp: Seq<char>, id: u32) -> Seq<char> {
    save_directory(gallname, stamp) + "/"@ + decimal(id as nat) + ".txt"@
}

/// The address of board page `page` of gallery `gallname`.
pub fn list_page_url(gallname: &str, page: u32) -> (r: String)
    ensures
        r@ == list_page_address(gallname@, page),
{
    let mut r = String::from_str(BOARD_URL);
    r.append(gallname);
    r.append("?page=");
    push_decimal(&mut r, page);
    proof {
        assert(r@ == BOARD_URL@ + gallname@ + ("?page="@ + decimal(page as nat)));
    }
    r
}

/// The address of article `id` of gallery `gallname`.
pub fn article_url(gallname: &str, id: u32) -> (r: String)
    ensures
        r@ == article_address(gallname@, id),
{
    let mut r = String::from_str(BOARD_URL);
    r.append(gallname);
    r.append("/");
    push_decimal(&mut r, id);
    r
}

/// The directory the articles of gallery `gallname` are saved in.
pub fn save_dir(gallname: &str, stamp: &str) -> (r: String)
    ensures
        r@ == save_directory(gallname@, stamp@),
{
    let mut r = String::from_str("data/");
    r.append(gallname);
    r.append("/");
    r.append(stamp);
    r
}

/// The file article `id` of gallery `gallname` is saved in.
pub fn save_path(gallname: &str, stamp: &str, id: u32) -> (r: String)
    ensures
        r@ == save_file(gallname@, stamp@, id),
{
    let mut r = save_dir(gallname, stamp);
    r.append("/");
    push_decimal(&mut r, id);
    r.append(".txt");
    r
}

/// The part after the last `'/'` of `p + "/" + t`, where `t` holds no `'/'`,
/// is `t`.
proof fn lemma_after_slash_suffix(p: Seq<char>, t: Seq<char>)
    requires
        !t.contains('/'),
    ensures
        last_segment(p + seq!['/'] + t) == Some(t),
    decreases t.len(),
{
    let s = p + seq!['/'] + t;
    assert(s[p.len() as int] == '/');
    if t.len() == 0 {
        assert(s == p.push('/'));
    } else {
        assert(s.drop_last() == p + seq!['/'] + t.drop_last());
        assert(!t.drop_last().contains('/')) by {
            if t.drop_last().contains('/') {
                let k = choose|k: int| 0 <= k < t.drop_last().len() && t.drop_last()[k] == '/';
                assert(t[k] == '/');
            }
        }
        lemma_after_slash_suffix(p, t.drop_last());
        assert(s.last() == t.last());
        assert(t.last() != '/') by {
            assert(t[t.len() - 1] == t.last());
        }
        assert(t.drop_last().push(t.last()) == t);
    }
}

/// Removing `q` from `t + q`, where no character of `t` is the first of
/// `q`, leaves `t`.
proof fn lemma_replace_tail(t: Seq<char>, q: Seq<char>)
    requires
        q.len() > 0,
        forall|i: int| 0 <= i < t.len() ==> t[i] != q[0],
    ensures
        replaced(t + q, q, Seq::empty()) == t,
    decreases t.len(),
{
    let s = t + q;
    if t.len() == 0 {
        assert(s == q);
        assert(has_prefix(s, q)) by {
            assert(s.take(q.len() as int) == q);
        }
        assert(s.skip(q.len() as int) == Seq::<char>::empty());
        assert(replaced(Seq::<char>::empty(), q, Seq::empty()) == Seq::<char>::empty());
        assert(replaced(s, q, Seq::empty()) == Seq::<char>::empty() + replaced(
            s.skip(q.len() as int),
            q,
            Seq::empty(),
        ));
        assert(Seq::<char>::empty() + Seq::<char>::empty() == Seq::<char>::empty());
    } else {
        assert(s[0] == t[0]);
        assert(!has_prefix(s, q)) by {
            if has_prefix(s, q) {
                assert(s.take(q.len() as int)[0] == q[0]);
            }
        }
        assert(s.drop_first() == t.drop_first() + q);
        lemma_replace_tail(t.drop_first(), q);
        assert(replaced(s, q, Seq::empty()) == seq![s[0]] + replaced(s.drop_first(), q, Seq::empty()));
        assert(seq![t[0]] + t.drop_first() == t);
    }
}

/// The number of an article is read back from the link a board page gives
/// for it: a link made of the article's address and the page's query gives
/// the article's number, for every gallery, number and page.
pub proof fn law_article_number_round_trip(gallname: Seq<char>, id: u32, page: u32)
    ensures
        href_article_id(article_address(gallname, id) + page_query(page), page) == Ok::<
            u32,
            ScrapeError,
        >(id),
{
    reveal_strlit("/");
    reveal_strlit("?page=");
    let q = page_query(page);
    let t = decimal(id as nat);
    lemma_decimal_digits(id as nat);
    lemma_decimal_digits(page as nat);
    assert(q[0] == '?');
    let tail = t + q;
    assert(!tail.contains('/')) by {
        if tail.contains('/') {
            let k = choose|k: int| 0 <= k < tail.len() && tail[k] == '/';
            if k < t.len() {
                assert(tail[k] == t[k]);
                assert(is_digit(t[k]));
            } else if k < t.len() + 6 {
                assert(tail[k] == "?page="@[k - t.len()]);
            } else {
                assert(tail[k] == decimal(page as nat)[k - t.len() - 6]);
                assert(is_digit(decimal(page as nat)[k - t.len() - 6]));
            }
        }
    }
    let p = BOARD_URL@ + gallname;
    assert(article_address(gallname, id) + q == p + seq!['/'] + tail);
    lemma_after_slash_suffix(p, tail);
    assert forall|i: int| 0 <= i < t.len() implies t[i] != q[0] by {
        assert(is_digit(t[i]));
    }
    lemma_replace_tail(t, q);
    law_decimal_round_trip(id);
}

/// The address of a board page ends in the page's number: it is the board
/// address, the gallery and `"?page="`, followed by text that reads back as
/// the page, for every gallery and page.
pub proof fn law_list_page_number(gallname: Seq<char>, page: u32)
    ensures
        has_prefix(list_page_address(gallname, page), BOARD_URL@ + gallname + "?page="@),
        parsed_u32(
            list_page_address(gallname, page).skip((BOARD_URL@ + gallname + "?page="@).len() as int),
        ) == Some(page),
{
    let pre = BOARD_URL@ + gallname + "?page="@;
    let a = list_page_address(gallname, page);
    assert(a == pre + decimal(page as nat));
    assert(a.take(pre.len() as int) == pre);
    assert(a.skip(pre.len() as int) == decimal(page as nat));
    law_decimal_round_trip(page);
}

/// An article is saved under `data/{gallery}/{stamp}/`, in a file named by
/// a text that reads back as its number, followed by `.txt`, for every
/// gallery, stamp and number.
pub proof fn law_save_file_number(gallname: Seq<char>, stamp: Seq<char>, id: u32)
    ensures
        ({
            let f = save_file(gallname, stamp, id);
            let pre = "data/"@ + gallname + "/"@ + stamp + "/"@;
            &&& has_prefix(f, pre)
            &&& f.len() >= pre.len() + 4
            &&& f.subrange(f.len() - 4, f.len() as int) == ".txt"@
            &&& parsed_u32(f.subrange(pre.len() as int, f.len() - 4)) == Some(id)
        }),
{
    reveal_strlit(".txt");
    let pre = "data/"@ + gallname + "/"@ + stamp + "/"@;
    let f = save_file(gallname, stamp, id);
    let d = decimal(id as nat);
    assert(f == pre + d + ".txt"@);
    assert(f.take(pre.len() as int) == pre);
    assert(f.subrange(f.len() - 4, f.len() as int) == ".txt"@);
    assert(f.subrange(pre.len() as int, f.len() - 4) == d);
    law_decimal_round_trip(id);
}

} // verus!

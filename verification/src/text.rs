//! Character-level text operations used to read scraped pages and to lay out
//! the saved article text: decimal numbers, unsigned parsing, substring
//! replacement, layout stripping and path segments.
use vstd::prelude::*;

verus! {

/// The character of a decimal digit `d < 10`.
pub open spec fn digit_char(d: nat) -> char {
    (48 + d) as char
}

/// Whether `c` is one of `'0'..='9'`.
pub open spec fn is_digit(c: char) -> bool {
    '0' <= c && c <= '9'
}

/// The numeric value of an ASCII digit character.
pub open spec fn digit_value(c: char) -> int {
    c as int - 48
}

/// The decimal rendering of `n`, as `Display` writes an unsigned integer:
/// no sign, no leading zeros, `"0"` for zero.
pub open spec fn decimal(n: nat) -> Seq<char>
    decreases n,
{
    if n < 10 {
        seq![digit_char(n)]
    } else {
        decimal(n / 10).push(digit_char(n % 10))
    }
}

/// The value of a sequence of decimal digits, most significant first.
pub open spec fn digits_value(s: Seq<char>) -> int
    decreases s.len(),
{
    if s.len() == 0 {
        0
    } else {
        digits_value(s.drop_last()) * 10 + digit_value(s.last())
    }
}

/// Whether every character of `s` is a decimal digit.
pub open spec fn all_digits(s: Seq<char>) -> bool {
    forall|i: int| 0 <= i < s.len() ==> #[trigger] is_digit(s[i])
}

/// The digits that `u32::from_str` reads: one leading `'+'` is dropped.
pub open spec fn unsigned_digits(s: Seq<char>) -> Seq<char> {
    if s.len() > 0 && s[0] == '+' {
        s.drop_first()
    } else {
        s
    }
}

/// What `str::parse::<u32>` gives: a value for a non-empty run of decimal
/// digits, after an optional `'+'`, that fits in 32 bits; nothing otherwise.
pub open spec fn parsed_u32(s: Seq<char>) -> Option<u32> {
    let d = unsigned_digits(s);
    if d.len() > 0 && all_digits(d) && digits_value(d) <= u32::MAX {
        Some(digits_value(d) as u32)
    } else {
        None
    }
}

/// Whether `s` begins with `p`.
pub open spec fn has_prefix(s: Seq<char>, p: Seq<char>) -> bool {
    p.len() <= s.len() && s.take(p.len() as int) == p
}

/// Whether `p` occurs in `s` at index `i`.
pub open spec fn occurs_at(s: Seq<char>, p: Seq<char>, i: int) -> bool {
    0 <= i && i + p.len() <= s.len() && s.subrange(i, i + p.len()) == p
}

/// Whether `p` occurs anywhere in `s`.
pub open spec fn contains_seq(s: Seq<char>, p: Seq<char>) -> bool {
    exists|i: int| occurs_at(s, p, i)
}

/// What `str::replace` computes: `s` with every non-overlapping occurrence
/// of `from`, found left to right, replaced by `to`. An empty `from` occurs
/// before every character and at the end.
pub open spec fn replaced(s: Seq<char>, from: Seq<char>, to: Seq<char>) -> Seq<char>
    decreases s.len(),
{
    if from.len() == 0 {
        if s.len() == 0 {
            to
        } else {
            to + seq![s[0]] + replaced(s.drop_first(), from, to)
        }
    } else if s.len() == 0 {
        s
    } else if has_prefix(s, from) {
        to + replaced(s.skip(from.len() as int), from, to)
    } else {
        seq![s[0]] + replaced(s.drop_first(), from, to)
    }
}

/// Whether `c` is a line feed or a tab.
pub open spec fn is_layout(c: char) -> bool {
    c == '\n' || c == '\t'
}

/// `s` without its line feeds and tabs.
pub open spec fn strip_layout(s: Seq<char>) -> Seq<char>
    decreases s.len(),
{
    if s.len() == 0 {
        s
    } else if is_layout(s.last()) {
        strip_layout(s.drop_last())
    } else {
        strip_layout(s.drop_last()).push(s.last())
    }
}

/// The part of `s` after its last `'/'` (all of `s` when it holds none).
pub open spec fn after_last_slash(s: Seq<char>) -> Seq<char>
    decreases s.len(),
{
    if s.len() == 0 {
        s
    } else if s.last() == '/' {
        Seq::empty()
    } else {
        after_last_slash(s.drop_last()).push(s.last())
    }
}

/// The characters of `s`, one by one.
pub fn chars_of(s: &str) -> (v: Vec<char>)
    ensures
        v@ == s@,
{
    let mut v: Vec<char> = Vec::new();
    for c in it: s.chars()
        invariant
            it.seq() == s@,
            v@ == it.seq().take(it.index() as int),
    {
        v.push(c);
    }
    v
}

/// Appends one character (`String::push`).
#[verifier::external_body]
pub(crate) fn push_char(s: &mut String, c: char)
    ensures
        final(s)@ == old(s)@.push(c),
{
    s.push(c);
}

/// Appends the characters of `v` to `out`.
pub(crate) fn append_chars(out: &mut String, v: &[char])
    ensures
        final(out)@ == old(out)@ + v@,
{
    let mut i: usize = 0;
    while i < v.len()
        invariant
            i <= v@.len(),
            out@ == old(out)@ + v@.take(i as int),
        decreases v@.len() - i,
    {
        push_char(out, v[i]);
        proof {
            assert(v@.take(i + 1) == v@.take(i as int).push(v@[i as int]));
        }
        i = i + 1;
    }
    proof {
        assert(v@.take(v@.len() as int) == v@);
    }
}

/// The character of the decimal digit `d`.
fn digit_to_char(d: u32) -> (c: char)
    requires
        d < 10,
    ensures
        c == digit_char(d as nat),
{
    let b: u8 = 48u8 + (d as u8);
    b as char
}

/// Appends the decimal rendering of `n` to `out`.
pub fn push_decimal(out: &mut String, n: u32)
    ensures
        final(out)@ == old(out)@ + decimal(n as nat),
    decreases n,
{
    if n >= 10 {
        push_decimal(out, n / 10);
    }
    push_char(out, digit_to_char(n % 10));
    proof {
        if n >= 10 {
            assert(decimal(n as nat) == decimal((n / 10) as nat).push(digit_char((n % 10) as nat)));
        } else {
            assert(decimal(n as nat) == seq![digit_char(n as nat)]);
        }
    }
}

/// The decimal rendering of `n` (`u32::to_string`).
pub fn decimal_string(n: u32) -> (s: String)
    ensures
        s@ == decimal(n as nat),
{
    let mut s = String::new();
    push_decimal(&mut s, n);
    s
}

/// Reads `s` as `str::parse::<u32>` does; `None` where that parse fails.
pub fn parse_u32(s: &str) -> (r: Option<u32>)
    ensures
        r == parsed_u32(s@),
{
    let v = chars_of(s);
    let start: usize = if v.len() > 0 && v[0] == '+' { 1 } else { 0 };
    let ghost d = unsigned_digits(s@);
    proof {
        if start == 1 {
            assert(d == v@.skip(1));
        } else {
            assert(d == v@.skip(0));
        }
    }
    if start >= v.len() {
        return None;
    }
    // `acc` is the value read so far, capped just above `u32::MAX`.
    let cap: u64 = 0x1_0000_0000;
    let mut acc: u64 = 0;
    let mut ok = true;
    let mut i: usize = start;
    while i < v.len()
        invariant
            start <= i <= v@.len(),
            d == v@.skip(start as int),
            cap == 0x1_0000_0000,
            ok == all_digits(v@.subrange(start as int, i as int)),
            ok ==> acc == if digits_value(v@.subrange(start as int, i as int)) < cap {
                digits_value(v@.subrange(start as int, i as int))
            } else {
                cap as int
            },
        decreases v@.len() - i,
    {
        let c = v[i];
        let ghost pre = v@.subrange(start as int, i as int);
        let ghost next = v@.subrange(start as int, i + 1);
        proof {
            assert(next.drop_last() == pre);
            assert(next.last() == c);
        }
        proof {
            lemma_all_digits_push(pre, c);
        }
        if '0' <= c && c <= '9' {
            if ok {
                let dv: u64 = (c as u32 - 48) as u64;
                let grown: u64 = acc * 10 + dv;
                acc = if grown < cap { grown } else { cap };
            }
        } else {
            ok = false;
        }
        i = i + 1;
    }
    proof {
        assert(v@.subrange(start as int, v@.len() as int) == d);
    }
    if ok && acc < cap {
        Some(acc as u32)
    } else {
        None
    }
}

proof fn lemma_all_digits_push(s: Seq<char>, c: char)
    ensures
        all_digits(s.push(c)) == (all_digits(s) && is_digit(c)),
        all_digits(s) ==> digits_value(s) >= 0,
    decreases s.len(),
{
    assert(s.push(c).drop_last() == s);
    if all_digits(s.push(c)) {
        assert(is_digit(s.push(c)[s.len() as int]));
        assert forall|i: int| 0 <= i < s.len() implies #[trigger] is_digit(s[i]) by {
            assert(s.push(c)[i] == s[i]);
        }
    }
    if all_digits(s) && is_digit(c) {
        assert forall|i: int| 0 <= i < s.push(c).len() implies #[trigger] is_digit(s.push(c)[i]) by {
            if i < s.len() {
                assert(s.push(c)[i] == s[i]);
            }
        }
    }
    if all_digits(s) && s.len() > 0 {
        lemma_all_digits_push(s.drop_last(), s.last());
        assert(s.drop_last().push(s.last()) == s);
        assert(is_digit(s[s.len() - 1]));
    }
}

/// `Some` of the part of `s` after its last `'/'` when `s` holds one (the right
/// half of `str::rsplit_once("/")`), `None` when it holds none.
pub open spec fn last_segment(s: Seq<char>) -> Option<Seq<char>> {
    if s.contains('/') {
        Some(after_last_slash(s))
    } else {
        None
    }
}

/// Whether `p` occurs in `s` at index `i`.
fn occurs_at_index(s: &[char], p: &[char], i: usize) -> (r: bool)
    requires
        i <= s@.len(),
    ensures
        r == occurs_at(s@, p@, i as int),
{
    if p.len() > s.len() - i {
        return false;
    }
    let mut k: usize = 0;
    while k < p.len()
        invariant
            k <= p@.len(),
            i + p@.len() <= s@.len(),
            s@.len() == s.len(),
            p@.len() == p.len(),
            forall|j: int| 0 <= j < k ==> s@[i + j] == p@[j],
        decreases p@.len() - k,
    {
        if s[i + k] != p[k] {
            proof {
                assert(s@.subrange(i as int, i + p@.len())[k as int] != p@[k as int]);
            }
            return false;
        }
        k = k + 1;
    }
    proof {
        assert(s@.subrange(i as int, i + p@.len()) == p@);
    }
    true
}

proof fn lemma_skip_prefix(s: Seq<char>, p: Seq<char>, i: int)
    requires
        0 <= i <= s.len(),
    ensures
        has_prefix(s.skip(i), p) == occurs_at(s, p, i),
{
    if i + p.len() <= s.len() {
        assert(s.skip(i).take(p.len() as int) == s.subrange(i, i + p.len()));
    }
}

/// Whether `s` begins with `p` (`str::starts_with`).
pub fn starts_with(s: &str, p: &str) -> (r: bool)
    ensures
        r == has_prefix(s@, p@),
{
    let v = chars_of(s);
    let w = chars_of(p);
    let r = occurs_at_index(v.as_slice(), w.as_slice(), 0);
    proof {
        lemma_skip_prefix(s@, p@, 0);
        assert(s@.skip(0) == s@);
    }
    r
}

/// Whether `p` occurs in `s` (`str::contains`).
pub fn contains(s: &str, p: &str) -> (r: bool)
    ensures
        r == contains_seq(s@, p@),
{
    let v = chars_of(s);
    let w = chars_of(p);
    if w.len() > v.len() {
        return false;
    }
    let last: usize = v.len() - w.len();
    let mut i: usize = 0;
    loop
        invariant
            last == v@.len() - w@.len(),
            i <= last,
            v@ == s@,
            w@ == p@,
            forall|j: int| 0 <= j < i ==> !occurs_at(s@, p@, j),
        decreases last - i,
    {
        if occurs_at_index(v.as_slice(), w.as_slice(), i) {
            return true;
        }
        if i == last {
            return false;
        }
        i = i + 1;
    }
}

/// `s` with every occurrence of `from` replaced by `to`, left to right
/// (`str::replace`).
pub fn replace_all(s: &str, from: &str, to: &str) -> (r: String)
    ensures
        r@ == replaced(s@, from@, to@),
{
    let v = chars_of(s);
    let f = chars_of(from);
    let mut out = String::new();
    let mut i: usize = 0;
    proof {
        assert(v@.skip(0) == v@);
    }
    if f.len() == 0 {
        while i < v.len()
            invariant
                i <= v@.len(),
                v@ == s@,
                from@.len() == 0,
                replaced(s@, from@, to@) == out@ + replaced(v@.skip(i as int), from@, to@),
            decreases v@.len() - i,
        {
            let ghost rest = v@.skip(i as int);
            let ghost before = out@;
            out.append(to);
            push_char(&mut out, v[i]);
            proof {
                assert(rest.drop_first() == v@.skip(i + 1));
                assert(rest[0] == v@[i as int]);
                assert(replaced(rest, from@, to@) == to@ + seq![rest[0]] + replaced(
                    rest.drop_first(),
                    from@,
                    to@,
                ));
                assert(before + (to@ + seq![v@[i as int]] + replaced(v@.skip(i + 1), from@, to@))
                    == out@ + replaced(v@.skip(i + 1), from@, to@));
            }
            i = i + 1;
        }
        proof {
            assert(v@.skip(i as int) == Seq::<char>::empty());
        }
        out.append(to);
        return out;
    }
    while i < v.len()
        invariant
            i <= v@.len(),
            v@ == s@,
            f@ == from@,
            f@.len() > 0,
            replaced(s@, from@, to@) == out@ + replaced(v@.skip(i as int), from@, to@),
        decreases v@.len() - i,
    {
        let ghost rest = v@.skip(i as int);
        proof {
            lemma_skip_prefix(v@, f@, i as int);
        }
        if occurs_at_index(v.as_slice(), f.as_slice(), i) {
            let ghost before = out@;
            out.append(to);
            proof {
                assert(rest.skip(f@.len() as int) == v@.skip(i + f@.len()));
                assert(replaced(rest, from@, to@) == to@ + replaced(rest.skip(f@.len() as int), from@, to@));
                assert(before + (to@ + replaced(v@.skip(i + f@.len()), from@, to@)) == out@ + replaced(v@.skip(i + f@.len()), from@, to@));
            }
            i = i + f.len();
        } else {
            let ghost before = out@;
            push_char(&mut out, v[i]);
            proof {
                assert(rest.drop_first() == v@.skip(i + 1));
                assert(rest[0] == v@[i as int]);
                assert(replaced(rest, from@, to@) == seq![rest[0]] + replaced(rest.drop_first(), from@, to@));
                assert(before + (seq![v@[i as int]] + replaced(v@.skip(i + 1), from@, to@)) == out@ + replaced(v@.skip(i + 1), from@, to@));
            }
            i = i + 1;
        }
    }
    proof {
        assert(replaced(v@.skip(i as int), from@, to@) == Seq::<char>::empty());
        assert(out@ + Seq::<char>::empty() == out@);
    }
    out
}

/// `s` without its line feeds and tabs (`s.replace("\n", "").replace("\t", "")`).
pub fn without_layout(s: &str) -> (r: String)
    ensures
        r@ == strip_layout(s@),
{
    let v = chars_of(s);
    let mut out = String::new();
    let mut i: usize = 0;
    while i < v.len()
        invariant
            i <= v@.len(),
            v@ == s@,
            out@ == strip_layout(v@.take(i as int)),
        decreases v@.len() - i,
    {
        proof {
            assert(v@.take(i + 1).drop_last() == v@.take(i as int));
            assert(v@.take(i + 1).last() == v@[i as int]);
        }
        let c = v[i];
        if !(c == '\n' || c == '\t') {
            push_char(&mut out, c);
        }
        i = i + 1;
    }
    proof {
        assert(v@.take(v@.len() as int) == v@);
    }
    out
}

/// The part of `s` after its last `'/'`, when it holds one
/// (`s.rsplit_once("/").map(|(_, r)| r)`).
pub fn after_last_slash_of(s: &str) -> (r: Option<String>)
    ensures
        match r {
            Some(t) => last_segment(s@) == Some(t@),
            None => last_segment(s@) is None,
        },
{
    let v = chars_of(s);
    let mut seg = String::new();
    let mut found = false;
    let mut i: usize = 0;
    while i < v.len()
        invariant
            i <= v@.len(),
            v@ == s@,
            seg@ == after_last_slash(v@.take(i as int)),
            found == v@.take(i as int).contains('/'),
        decreases v@.len() - i,
    {
        let ghost pre = v@.take(i as int);
        let ghost next = v@.take(i + 1);
        proof {
            assert(next.drop_last() == pre);
            assert(next.last() == v@[i as int]);
            assert(next[i as int] == v@[i as int]);
        }
        let c = v[i];
        if c == '/' {
            seg = String::new();
            found = true;
        } else {
            push_char(&mut seg, c);
            proof {
                if next.contains('/') {
                    let k = choose|k: int| 0 <= k < next.len() && next[k] == '/';
                    assert(pre[k] == '/');
                }
                if pre.contains('/') {
                    let k = choose|k: int| 0 <= k < pre.len() && pre[k] == '/';
                    assert(next[k] == '/');
                }
            }
        }
        i = i + 1;
    }
    proof {
        assert(v@.take(v@.len() as int) == v@);
    }
    if found {
        Some(seg)
    } else {
        None
    }
}

/// The decimal rendering of `n` is a run of digits with value `n`.
pub proof fn lemma_decimal_digits(n: nat)
    ensures
        decimal(n).len() > 0,
        all_digits(decimal(n)),
        digits_value(decimal(n)) == n,
    decreases n,
{
    let d = decimal(n);
    if n < 10 {
        assert(d[0] == digit_char(n));
        assert(digit_char(n) as int == 48 + n);
        assert(d.drop_last() == Seq::<char>::empty());
        assert(digits_value(d) == digits_value(d.drop_last()) * 10 + digit_value(d.last()));
    } else {
        lemma_decimal_digits(n / 10);
        assert(d.drop_last() == decimal(n / 10));
        assert(d.last() == digit_char(n % 10));
        assert(digit_char(n % 10) as int == 48 + n % 10);
        assert(digits_value(d) == digits_value(d.drop_last()) * 10 + digit_value(d.last()));
        assert forall|i: int| 0 <= i < d.len() implies #[trigger] is_digit(d[i]) by {
            if i < d.len() - 1 {
                assert(d[i] == decimal(n / 10)[i]);
            }
        }
    }
}

/// A number is read back from its decimal rendering: `parse_u32` of
/// `decimal_string(n)` gives `n`, for every `n`.
pub proof fn law_decimal_round_trip(n: u32)
    ensures
        parsed_u32(decimal(n as nat)) == Some(n),
{
    lemma_decimal_digits(n as nat);
    let d = decimal(n as nat);
    assert(is_digit(d[0]));
    assert(unsigned_digits(d) == d);
}

/// Stripping layout leaves no line feed and no tab, for every text.
pub proof fn law_strip_layout_leaves_none(s: Seq<char>)
    ensures
        forall|i: int| 0 <= i < strip_layout(s).len() ==> !is_layout(#[trigger] strip_layout(s)[i]),
    decreases s.len(),
{
    if s.len() > 0 {
        law_strip_layout_leaves_none(s.drop_last());
        let r = strip_layout(s.drop_last());
        if !is_layout(s.last()) {
            assert forall|i: int| 0 <= i < r.push(s.last()).len() implies !is_layout(
                #[trigger] r.push(s.last())[i],
            ) by {
                if i < r.len() {
                    assert(r.push(s.last())[i] == r[i]);
                }
            }
        }
    }
}

/// Stripping layout from two texts put together strips each.
pub proof fn lemma_strip_layout_concat(a: Seq<char>, b: Seq<char>)
    ensures
        strip_layout(a + b) == strip_layout(a) + strip_layout(b),
    decreases b.len(),
{
    if b.len() == 0 {
        assert(a + b == a);
        assert(strip_layout(a) + strip_layout(b) == strip_layout(a));
    } else {
        assert((a + b).drop_last() == a + b.drop_last());
        assert((a + b).last() == b.last());
        lemma_strip_layout_concat(a, b.drop_last());
        if !is_layout(b.last()) {
            assert(strip_layout(a) + strip_layout(b.drop_last()).push(b.last()) == (strip_layout(a)
                + strip_layout(b.drop_last())).push(b.last()));
        }
    }
}

} // verus!

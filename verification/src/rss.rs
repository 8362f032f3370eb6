use vstd::prelude::*;

use crate::casefold::{upper_of, to_upper};
use crate::model::{FetchOutput, MenuGroup, TodayMenu};
use crate::restaurant::{Provider, Restaurant};
use crate::text::{
    all_digits, chars_to_string, dec_digits, find_char, find_char_from,
    find_sub_ci_from, fold_digits, is_ascii_digit, is_ascii_letter, is_ascii_upper, is_space,
    is_space_char, join_sep, join_with, matches_ci_at, norm_ws, normalize_chars, push_all,
    rfind_space, rfind_space_vec, split_char, split_char_vec, str_to_chars, trim_end_chars,
    trim_end_set, trim_end_ws, vec_eq_str, vec_subrange, zero_pad, zero_pad_chars, u32_to_chars,
    check_match_ci_at,
};

verus! {

/// What `html_escape::decode_html_entities` turns a text into; a function
/// of the characters alone.
pub uninterp spec fn html_decoded(s: Seq<char>) -> Seq<char>;

/// Relies on `html_escape::decode_html_entities`: decoding depends on the
/// characters alone.
#[verifier::external_body]
pub fn decode_entities(s: &str) -> (r: String)
    ensures
        r@ == html_decoded(s@),
{
    html_escape::decode_html_entities(s).to_string()
}

/// Where the content of an opening `<tag>` or `<tag attrs>` begins, for a
/// tag occurrence at `i` (ASCII case-insensitive).
pub open spec fn tag_open_content(s: Seq<char>, tag: Seq<char>, i: int) -> Option<int> {
    if matches_ci_at(s, seq!['<'] + tag, i) {
        let t = i + 1 + tag.len();
        if t < s.len() {
            if s[t] == '>' {
                Some(t + 1)
            } else if is_space(s[t]) {
                let k = find_char(s.skip(t), '>');
                if k >= 0 {
                    Some(t + k + 1)
                } else {
                    None
                }
            } else {
                None
            }
        } else {
            None
        }
    } else {
        None
    }
}

/// First index at or after `from` where `pat` occurs case-insensitively,
/// or -1.
pub open spec fn find_ci(s: Seq<char>, pat: Seq<char>, from: int) -> int
    decreases s.len() - from,
{
    if from < 0 || from >= s.len() {
        -1
    } else if matches_ci_at(s, pat, from) {
        from
    } else {
        find_ci(s, pat, from + 1)
    }
}

proof fn lemma_find_ci_at(s: Seq<char>, pat: Seq<char>, from: int, i: int)
    requires
        0 <= from <= i <= s.len(),
        forall|j: int| from <= j < i ==> !matches_ci_at(s, pat, j),
        i < s.len() ==> matches_ci_at(s, pat, i),
    ensures
        i < s.len() ==> find_ci(s, pat, from) == i,
        i == s.len() ==> find_ci(s, pat, from) < 0 || (i < s.len()),
    decreases i - from,
{
    if from < i {
        lemma_find_ci_at(s, pat, from + 1, i);
    }
}

proof fn lemma_find_ci_none(s: Seq<char>, pat: Seq<char>, from: int)
    requires
        0 <= from,
        forall|j: int| from <= j < s.len() ==> !matches_ci_at(s, pat, j),
    ensures
        find_ci(s, pat, from) < 0,
    decreases s.len() - from,
{
    if from < s.len() {
        lemma_find_ci_none(s, pat, from + 1);
    }
}

fn find_ci_exec(v: &Vec<char>, pat: &Vec<char>, from: usize) -> (r: Option<usize>)
    requires
        from <= v@.len(),
    ensures
        match r {
            Some(i) => from <= i < v@.len() && find_ci(v@, pat@, from as int) == i as int
                && matches_ci_at(v@, pat@, i as int),
            None => find_ci(v@, pat@, from as int) < 0,
        },
{
    match find_sub_ci_from(v, pat, from) {
        Some(i) => {
            proof {
                lemma_find_ci_at(v@, pat@, from as int, i as int);
            }
            if i < v.len() {
                Some(i)
            } else {
                // a match at the very end can only be the empty pattern
                proof {
                    lemma_find_ci_none(v@, pat@, from as int);
                }
                None
            }
        },
        None => {
            proof {
                lemma_find_ci_none(v@, pat@, from as int);
            }
            None
        },
    }
}

/// The content bounds of the first full `<tag>...</tag>` element starting
/// at or after `i`: scan opening positions in order; each candidate needs
/// its closing tag somewhere after its content start.
pub open spec fn tag_bounds_from(s: Seq<char>, tag: Seq<char>, i: int) -> Option<(int, int)>
    decreases s.len() - i,
{
    if i < 0 || i >= s.len() {
        None
    } else {
        match tag_open_content(s, tag, i) {
            Option::Some(cs) => {
                let close = seq!['<', '/'] + tag + seq!['>'];
                let j = find_ci(s, close, cs);
                if j >= 0 {
                    Some((cs, j))
                } else {
                    tag_bounds_from(s, tag, i + 1)
                }
            },
            Option::None => tag_bounds_from(s, tag, i + 1),
        }
    }
}

/// The raw inner text of the first `<tag>...</tag>` element, or empty.
pub open spec fn spec_rss_tag_content(s: Seq<char>, tag: Seq<char>) -> Seq<char> {
    match tag_bounds_from(s, tag, 0) {
        Option::Some(b) => if 0 <= b.0 <= b.1 <= s.len() {
            s.subrange(b.0, b.1)
        } else {
            Seq::empty()
        },
        Option::None => Seq::empty(),
    }
}

fn tag_open_content_exec(v: &Vec<char>, open_pat: &Vec<char>, tag_len: usize, i: usize) -> (r:
    Option<usize>)
    requires
        i <= v@.len(),
        open_pat@.len() == 1 + tag_len,
        open_pat@[0] == '<',
    ensures
        ({
            let tag = open_pat@.drop_first();
            match r {
                Some(cs) => tag_open_content(v@, tag, i as int) == Some(cs as int) && i < cs
                    <= v@.len(),
                None => tag_open_content(v@, tag, i as int) is None,
            }
        }),
{
    let ghost tag = open_pat@.drop_first();
    proof {
        assert(seq!['<'] + tag =~= open_pat@);
    }
    if !check_match_ci_at(v, open_pat, i) {
        return None;
    }
    proof {
        assert(i + open_pat@.len() <= v@.len());
        assert(v@.len() == v.len());
    }
    let t = i + 1 + tag_len;
    if t >= v.len() {
        return None;
    }
    let c = v[t];
    if c == '>' {
        Some(t + 1)
    } else if is_space_char(c) {
        proof {
            assert(v@.skip(t as int)[0] == v@[t as int]);
        }
        match find_char_from(v, t, '>') {
            Some(k) => {
                proof {
                    assert(find_char(v@.skip(t as int), '>') == k - t);
                }
                Some(k + 1)
            },
            None => None,
        }
    } else {
        None
    }
}

fn rss_tag_content(v: &Vec<char>, tag: &str) -> (out: Vec<char>)
    ensures
        out@ == spec_rss_tag_content(v@, tag@),
{
    let tag_chars = str_to_chars(tag);
    let mut open_pat: Vec<char> = Vec::new();
    open_pat.push('<');
    push_all(&mut open_pat, &tag_chars);
    proof {
        assert(open_pat@ =~= seq!['<'] + tag@);
        assert(open_pat@.drop_first() =~= tag@);
    }
    let mut close_pat: Vec<char> = Vec::new();
    close_pat.push('<');
    close_pat.push('/');
    push_all(&mut close_pat, &tag_chars);
    close_pat.push('>');
    proof {
        assert(close_pat@ =~= seq!['<', '/'] + tag@ + seq!['>']);
    }
    let tag_len = tag_chars.len();
    proof {
        assert(open_pat@.len() == 1 + tag_len);
    }
    let mut i: usize = 0;
    while i < v.len()
        invariant
            i <= v@.len(),
            open_pat@ == seq!['<'] + tag@,
            open_pat@.drop_first() == tag@,
            open_pat@.len() == 1 + tag_len,
            close_pat@ == seq!['<', '/'] + tag@ + seq!['>'],
            tag_bounds_from(v@, tag@, 0) == tag_bounds_from(v@, tag@, i as int),
        decreases v@.len() - i,
    {
        match tag_open_content_exec(v, &open_pat, tag_len, i) {
            Some(cs) => {
                match find_ci_exec(v, &close_pat, cs) {
                    Some(j) => {
                        proof {
                            assert(tag_bounds_from(v@, tag@, i as int) == Some((cs as int,
                            j as int)));
                        }
                        let out = vec_subrange(v, cs, j);
                        proof {
                            assert(out@ =~= v@.subrange(cs as int, j as int));
                        }
                        return out;
                    },
                    None => {},
                }
            },
            None => {},
        }
        i += 1;
    }
    let empty: Vec<char> = Vec::new();
    assert(empty@ =~= Seq::<char>::empty());
    empty
}

/// Where the content of an `<item ...>` opening begins: after `<item` a
/// word character disqualifies; content starts after the next '>'.
pub open spec fn is_word_char(c: char) -> bool {
    is_ascii_letter(c) || is_ascii_digit(c) || c == '_'
}

pub open spec fn item_open_content(s: Seq<char>, i: int) -> Option<int> {
    if matches_ci_at(s, "<item"@, i) {
        let t = i + 5;
        if t < s.len() && !is_word_char(s[t]) {
            if s[t] == '>' {
                Some(t + 1)
            } else {
                let k = find_char(s.skip(t), '>');
                if k >= 0 {
                    Some(t + k + 1)
                } else {
                    None
                }
            }
        } else {
            None
        }
    } else {
        None
    }
}

pub open spec fn item_bounds_from(s: Seq<char>, i: int) -> Option<(int, int)>
    decreases s.len() - i,
{
    if i < 0 || i >= s.len() {
        None
    } else {
        match item_open_content(s, i) {
            Option::Some(cs) => {
                let j = find_ci(s, "</item>"@, cs);
                if j >= 0 {
                    Some((cs, j))
                } else {
                    item_bounds_from(s, i + 1)
                }
            },
            Option::None => item_bounds_from(s, i + 1),
        }
    }
}

/// The raw inner text of the first `<item>...</item>`, or empty.
pub open spec fn spec_rss_item_content(s: Seq<char>) -> Seq<char> {
    match item_bounds_from(s, 0) {
        Option::Some(b) => if 0 <= b.0 <= b.1 <= s.len() {
            s.subrange(b.0, b.1)
        } else {
            Seq::empty()
        },
        Option::None => Seq::empty(),
    }
}

fn item_open_content_exec(v: &Vec<char>, i: usize) -> (r: Option<usize>)
    requires
        i <= v@.len(),
    ensures
        match r {
            Some(cs) => item_open_content(v@, i as int) == Some(cs as int) && i < cs <= v@.len(),
            None => item_open_content(v@, i as int) is None,
        },
{
    let pat = str_to_chars("<item");
    proof {
        reveal_strlit("<item");
    }
    if !check_match_ci_at(v, &pat, i) {
        return None;
    }
    proof {
        assert(i + 5 <= v@.len());
        assert(v@.len() == v.len());
    }
    let t = i + 5;
    if t >= v.len() {
        return None;
    }
    let c = v[t];
    let word = ('A' <= c && c <= 'Z') || ('a' <= c && c <= 'z') || ('0' <= c && c <= '9') || c
        == '_';
    if word {
        return None;
    }
    if c == '>' {
        Some(t + 1)
    } else {
        proof {
            assert(v@.skip(t as int)[0] == v@[t as int]);
        }
        match find_char_from(v, t, '>') {
            Some(k) => {
                proof {
                    assert(find_char(v@.skip(t as int), '>') == k - t);
                }
                Some(k + 1)
            },
            None => None,
        }
    }
}

fn rss_item_content(v: &Vec<char>) -> (out: Vec<char>)
    ensures
        out@ == spec_rss_item_content(v@),
{
    let close_pat = str_to_chars("</item>");
    let mut i: usize = 0;
    while i < v.len()
        invariant
            i <= v@.len(),
            close_pat@ == "</item>"@,
            item_bounds_from(v@, 0) == item_bounds_from(v@, i as int),
        decreases v@.len() - i,
    {
        match item_open_content_exec(v, i) {
            Some(cs) => {
                match find_ci_exec(v, &close_pat, cs) {
                    Some(j) => {
                        proof {
                            assert(item_bounds_from(v@, i as int) == Some((cs as int, j as int)));
                        }
                        let out = vec_subrange(v, cs, j);
                        proof {
                            assert(out@ =~= v@.subrange(cs as int, j as int));
                        }
                        return out;
                    },
                    None => {},
                }
            },
            None => {},
        }
        i += 1;
    }
    let empty: Vec<char> = Vec::new();
    assert(empty@ =~= Seq::<char>::empty());
    empty
}

/// Markup stripped: each `<...>` span (leftmost, non-overlapping) becomes
/// one space; a '<' without a '>' leaves the rest unchanged.
pub open spec fn strip_tags(s: Seq<char>) -> Seq<char>
    decreases s.len(),
    via strip_tags_dec
{
    let i = find_char(s, '<');
    if i < 0 {
        s
    } else {
        let k = find_char(s.skip(i + 1), '>');
        if k < 0 {
            s
        } else {
            s.take(i) + seq![' '] + strip_tags(s.skip(i + 1 + k + 1))
        }
    }
}

#[via_fn]
proof fn strip_tags_dec(s: Seq<char>) {
    crate::text::lemma_find_char_props(s, '<');
    let i = find_char(s, '<');
    if i >= 0 {
        crate::text::lemma_find_char_props(s.skip(i + 1), '>');
    }
}

fn strip_tags_exec(v: &Vec<char>) -> (out: Vec<char>)
    ensures
        out@ == strip_tags(v@),
    decreases v@.len(),
{
    proof {
        assert(v@.skip(0) =~= v@);
    }
    match find_char_from(v, 0, '<') {
        None => {
            let out = vec_subrange(v, 0, v.len());
            assert(out@ =~= v@);
            out
        },
        Some(i) => {
            proof {
                crate::text::lemma_find_char_props(v@, '<');
                assert(v@.len() == v.len());
            }
            match find_char_from(v, i + 1, '>') {
                None => {
                    let out = vec_subrange(v, 0, v.len());
                    assert(out@ =~= v@);
                    out
                },
                Some(k) => {
                    let ghost kk = k - (i + 1);
                    proof {
                        assert(find_char(v@.skip(i + 1), '>') == kk);
                        crate::text::lemma_find_char_props(v@.skip(i + 1), '>');
                    }
                    let rest = vec_subrange(v, k + 1, v.len());
                    proof {
                        assert(rest@ =~= v@.skip(k + 1));
                        assert(v@.skip(i + 1 + kk + 1) =~= v@.skip(k + 1));
                    }
                    let stripped = strip_tags_exec(&rest);
                    let mut out = vec_subrange(v, 0, i);
                    proof {
                        assert(out@ =~= v@.take(i as int));
                    }
                    out.push(' ');
                    push_all(&mut out, &stripped);
                    proof {
                        assert(out@ =~= v@.take(i as int) + seq![' '] + strip_tags(
                            v@.skip(i + 1 + kk + 1),
                        ));
                    }
                    out
                },
            }
        },
    }
}

/// Markup stripped, entities decoded, white space normalized.
pub open spec fn spec_strip_html(raw: Seq<char>) -> Seq<char> {
    norm_ws(html_decoded(strip_tags(raw)))
}

pub fn strip_html_text(raw: &Vec<char>) -> (out: Vec<char>)
    ensures
        out@ == spec_strip_html(raw@),
{
    let without_tags = strip_tags_exec(raw);
    let s = chars_to_string(&without_tags);
    let decoded = decode_entities(s.as_str());
    let dc = str_to_chars(decoded.as_str());
    normalize_chars(&dc)
}

/// A leap year in the proleptic Gregorian calendar.
pub open spec fn is_leap_year(y: int) -> bool {
    (y % 4 == 0 && y % 100 != 0) || y % 400 == 0
}

pub open spec fn days_in_month(y: int, m: int) -> int {
    if m == 1 || m == 3 || m == 5 || m == 7 || m == 8 || m == 10 || m == 12 {
        31
    } else if m == 4 || m == 6 || m == 9 || m == 11 {
        30
    } else if m == 2 {
        if is_leap_year(y) {
            29
        } else {
            28
        }
    } else {
        0
    }
}

/// A real calendar date: the month exists and the day fits the month.
pub open spec fn is_valid_date(y: int, m: int, d: int) -> bool {
    1 <= m <= 12 && 1 <= d <= days_in_month(y, m)
}

pub open spec fn digits_at(s: Seq<char>, i: int, n: int) -> bool {
    0 <= i && i + n <= s.len() && all_digits(s.subrange(i, i + n))
}

pub open spec fn sep_at(s: Seq<char>, i: int) -> bool {
    0 <= i < s.len() && (s[i] == '-' || s[i] == '.' || s[i] == '/')
}

/// The year part takes as many digits as available, four at most, two at
/// least.
pub open spec fn year_len_at(s: Seq<char>, p: int) -> int {
    if digits_at(s, p, 4) {
        4
    } else if digits_at(s, p, 3) {
        3
    } else if digits_at(s, p, 2) {
        2
    } else {
        0
    }
}

pub open spec fn month_part_at(s: Seq<char>, p: int) -> Option<(int, int)> {
    if digits_at(s, p, 2) && sep_at(s, p + 2) && year_len_at(s, p + 3) > 0 {
        Some((2, year_len_at(s, p + 3)))
    } else if digits_at(s, p, 1) && sep_at(s, p + 1) && year_len_at(s, p + 2) > 0 {
        Some((1, year_len_at(s, p + 2)))
    } else {
        None
    }
}

/// A `D[-./]M[-./]Y` date pattern starting at `i`: the day and month take
/// one or two digits (two preferred), the year two to four.
pub open spec fn date_match_at(s: Seq<char>, i: int) -> Option<(int, int, int)> {
    if digits_at(s, i, 2) && sep_at(s, i + 2) && month_part_at(s, i + 3) is Some {
        let mp = month_part_at(s, i + 3)->Some_0;
        Some((2, mp.0, mp.1))
    } else if digits_at(s, i, 1) && sep_at(s, i + 1) && month_part_at(s, i + 2) is Some {
        let mp = month_part_at(s, i + 2)->Some_0;
        Some((1, mp.0, mp.1))
    } else {
        None
    }
}

/// First position of a date pattern at or after `i`, or -1.
pub open spec fn find_date_match(s: Seq<char>, i: int) -> int
    decreases s.len() - i,
{
    if i < 0 || i >= s.len() {
        -1
    } else if date_match_at(s, i) is Some {
        i
    } else {
        find_date_match(s, i + 1)
    }
}

/// The ISO rendering of the date found in free text: the first flexible
/// `D[-./]M[-./]Y` pattern, a two-digit year read as 2000+Y, rejected
/// entirely (empty result) when it is not a real calendar date.
pub open spec fn spec_rss_date_iso(date_text: Seq<char>) -> Seq<char> {
    let clean = norm_ws(date_text);
    if clean.len() == 0 {
        Seq::empty()
    } else {
        let i = find_date_match(clean, 0);
        if i < 0 {
            Seq::empty()
        } else {
            let m = date_match_at(clean, i)->Some_0;
            let dl = m.0;
            let ml = m.1;
            let yl = m.2;
            let day = fold_digits(clean.subrange(i, i + dl), 0);
            let month = fold_digits(clean.subrange(i + dl + 1, i + dl + 1 + ml), 0);
            let year0 = fold_digits(
                clean.subrange(i + dl + 1 + ml + 1, i + dl + 1 + ml + 1 + yl),
                0,
            );
            if day == 0 || month == 0 || year0 <= 0 {
                Seq::empty()
            } else {
                let year = if year0 < 100 {
                    year0 + 2000
                } else {
                    year0
                };
                if is_valid_date(year, month, day) {
                    zero_pad(dec_digits(year), 4) + seq!['-'] + zero_pad(dec_digits(month), 2)
                        + seq!['-'] + zero_pad(dec_digits(day), 2)
                } else {
                    Seq::empty()
                }
            }
        }
    }
}

fn check_digits_at(v: &Vec<char>, i: usize, n: usize) -> (r: bool)
    ensures
        r == digits_at(v@, i as int, n as int),
{
    if i > v.len() || v.len() - i < n {
        return false;
    }
    proof {
        assert(v@.len() == v.len());
    }
    let mut j: usize = 0;
    while j < n
        invariant
            j <= n,
            i + n <= v@.len(),
            v@.len() <= usize::MAX,
            forall|k: int| 0 <= k < j ==> is_ascii_digit(#[trigger] v@[i + k]),
        decreases n - j,
    {
        let c = v[i + j];
        if !('0' <= c && c <= '9') {
            assert(!is_ascii_digit(v@.subrange(i as int, i + n)[j as int]));
            return false;
        }
        j += 1;
    }
    assert forall|k: int| 0 <= k < n implies is_ascii_digit(
        #[trigger] v@.subrange(i as int, i + n)[k],
    ) by {
        assert(v@.subrange(i as int, i + n)[k] == v@[i + k]);
    }
    true
}

fn check_sep_at(v: &Vec<char>, i: usize) -> (r: bool)
    ensures
        r == sep_at(v@, i as int),
{
    if i >= v.len() {
        return false;
    }
    let c = v[i];
    c == '-' || c == '.' || c == '/'
}

fn year_len_exec(v: &Vec<char>, p: usize) -> (r: usize)
    ensures
        r as int == year_len_at(v@, p as int),
{
    if check_digits_at(v, p, 4) {
        4
    } else if check_digits_at(v, p, 3) {
        3
    } else if check_digits_at(v, p, 2) {
        2
    } else {
        0
    }
}

fn month_part_exec(v: &Vec<char>, p: usize) -> (r: Option<(usize, usize)>)
    ensures
        match r {
            Some(x) => month_part_at(v@, p as int) == Some((x.0 as int, x.1 as int)),
            None => month_part_at(v@, p as int) is None,
        },
{
    proof {
        assert(v@.len() == v.len());
    }
    if check_digits_at(v, p, 2) {
        let q = p + 2;
        if check_sep_at(v, q) {
            let yl = year_len_exec(v, q + 1);
            if yl > 0 {
                return Some((2, yl));
            }
        }
    }
    if check_digits_at(v, p, 1) {
        let q = p + 1;
        if check_sep_at(v, q) {
            let yl = year_len_exec(v, q + 1);
            if yl > 0 {
                return Some((1, yl));
            }
        }
    }
    None
}

fn date_match_exec(v: &Vec<char>, i: usize) -> (r: Option<(usize, usize, usize)>)
    ensures
        match r {
            Some(x) => date_match_at(v@, i as int) == Some((x.0 as int, x.1 as int, x.2 as int)),
            None => date_match_at(v@, i as int) is None,
        },
{
    proof {
        assert(v@.len() == v.len());
    }
    if check_digits_at(v, i, 2) {
        let q = i + 2;
        if check_sep_at(v, q) {
            match month_part_exec(v, q + 1) {
                Some(mp) => {
                    return Some((2, mp.0, mp.1));
                },
                None => {},
            }
        }
    }
    if check_digits_at(v, i, 1) {
        let q = i + 1;
        if check_sep_at(v, q) {
            match month_part_exec(v, q + 1) {
                Some(mp) => {
                    return Some((1, mp.0, mp.1));
                },
                None => {},
            }
        }
    }
    None
}

fn fold_digits_exec(v: &Vec<char>, a: usize, b: usize) -> (r: u64)
    requires
        a <= b <= v@.len(),
        b - a <= 4,
        all_digits(v@.subrange(a as int, b as int)),
    ensures
        r as int == fold_digits(v@.subrange(a as int, b as int), 0),
        r <= 9999,
{
    let ghost sub = v@.subrange(a as int, b as int);
    let mut acc: u64 = 0;
    let mut j: usize = a;
    proof {
        assert(sub.take(0) =~= Seq::<char>::empty());
        assert(v@.len() == v.len());
    }
    while j < b
        invariant
            a <= j <= b <= v@.len(),
            v@.len() <= usize::MAX,
            b - a <= 4,
            sub == v@.subrange(a as int, b as int),
            all_digits(sub),
            acc as int == fold_digits(sub.take(j - a), 0),
            acc <= 9999,
        decreases b - j,
    {
        let c = v[j];
        proof {
            assert(sub[j - a] == v@[j as int]);
            assert(is_ascii_digit(sub[j - a]));
            assert(sub.take(j + 1 - a) =~= sub.take(j - a).push(sub[j - a]));
            crate::text::lemma_fold_push_pub(sub.take(j - a), sub[j - a], 0);
        }
        acc = acc * 10 + (c as u32 as u64 - 48);
        j += 1;
        proof {
            assert forall|k: int| 0 <= k < sub.take(j - a).len() implies is_ascii_digit(
                #[trigger] sub.take(j - a)[k],
            ) by {
                assert(sub.take(j - a)[k] == sub[k]);
            }
            lemma_small_fold(sub.take(j - a));
        }
    }
    proof {
        assert(sub.take(b - a) =~= sub);
        lemma_small_fold(sub);
    }
    acc
}

proof fn lemma_small_fold(s: Seq<char>)
    requires
        all_digits(s),
        s.len() <= 4,
    ensures
        s.len() <= 3 ==> fold_digits(s, 0) <= 999,
        fold_digits(s, 0) <= 9999,
        fold_digits(s, 0) >= 0,
    decreases s.len(),
{
    lemma_fold_bound(s, 0);
}

proof fn lemma_fold_bound(s: Seq<char>, acc: int)
    requires
        all_digits(s),
        acc >= 0,
    ensures
        fold_digits(s, acc) >= acc,
        s.len() == 0 ==> fold_digits(s, acc) == acc,
        s.len() == 1 ==> fold_digits(s, acc) <= acc * 10 + 9,
        s.len() == 2 ==> fold_digits(s, acc) <= acc * 100 + 99,
        s.len() == 3 ==> fold_digits(s, acc) <= acc * 1000 + 999,
        s.len() == 4 ==> fold_digits(s, acc) <= acc * 10000 + 9999,
    decreases s.len(),
{
    if s.len() > 0 {
        assert(is_ascii_digit(s[0]));
        assert forall|i: int| 0 <= i < s.drop_first().len() implies is_ascii_digit(
            #[trigger] s.drop_first()[i],
        ) by {
            assert(s.drop_first()[i] == s[i + 1]);
        }
        lemma_fold_bound(s.drop_first(), acc * 10 + crate::text::digit_val(s[0]));
    }
}

/// Find the date inside free text and render it as a validated ISO date.
pub fn parse_rss_menu_date_iso(date_text: &Vec<char>) -> (out: Vec<char>)
    ensures
        out@ == spec_rss_date_iso(date_text@),
{
    let clean = normalize_chars(date_text);
    let empty: Vec<char> = Vec::new();
    assert(empty@ =~= Seq::<char>::empty());
    if clean.len() == 0 {
        return empty;
    }
    let mut i: usize = 0;
    let mut found: Option<(usize, (usize, usize, usize))> = None;
    while i < clean.len() && found.is_none()
        invariant
            i <= clean@.len(),
            match found {
                Option::Some(f) => find_date_match(clean@, 0) == f.0 && f.0 < clean@.len()
                    && date_match_at(clean@, f.0 as int) == Some(
                    ((f.1).0 as int, (f.1).1 as int, (f.1).2 as int),
                ),
                Option::None => find_date_match(clean@, 0) == find_date_match(clean@, i as int),
            },
        decreases clean@.len() - i + (if found is None { 1int } else { 0int }),
    {
        match date_match_exec(&clean, i) {
            Some(m) => {
                proof {
                    assert(find_date_match(clean@, i as int) == i);
                }
                found = Some((i, m));
            },
            None => {
                i += 1;
            },
        }
    }
    proof {
        if found is None {
            assert(i >= clean@.len());
            assert(find_date_match(clean@, i as int) < 0);
        }
    }
    match found {
        None => {
            assert(find_date_match(clean@, 0) < 0);
            empty
        },
        Some((p, m)) => {
            let (dl, ml, yl) = m;
            proof {
                assert(digits_at(clean@, p as int, dl as int));
                assert(digits_at(clean@, p + dl + 1, ml as int));
                assert(digits_at(clean@, p + dl + 1 + ml + 1, yl as int));
                assert(dl <= 2 && ml <= 2 && yl <= 4);
            }
            let day = fold_digits_exec(&clean, p, p + dl);
            let month = fold_digits_exec(&clean, p + dl + 1, p + dl + 1 + ml);
            let year0 = fold_digits_exec(&clean, p + dl + 1 + ml + 1, p + dl + 1 + ml + 1 + yl);
            if day == 0 || month == 0 || year0 == 0 {
                return empty;
            }
            let year: u64 = if year0 < 100 {
                year0 + 2000
            } else {
                year0
            };
            let leap = (year % 4 == 0 && year % 100 != 0) || year % 400 == 0;
            assert(leap == is_leap_year(year as int));
            let dim: u64 = if month == 1 || month == 3 || month == 5 || month == 7 || month == 8
                || month == 10 || month == 12 {
                31
            } else if month == 4 || month == 6 || month == 9 || month == 11 {
                30
            } else if month == 2 {
                if leap {
                    29
                } else {
                    28
                }
            } else {
                0
            };
            assert(dim as int == days_in_month(year as int, month as int));
            if !(1 <= month && month <= 12 && 1 <= day && day <= dim) {
                assert(!is_valid_date(year as int, month as int, day as int));
                return empty;
            }
            assert(is_valid_date(year as int, month as int, day as int));
            let yc = zero_pad_chars(u32_to_chars(year as u32), 4);
            let mc = zero_pad_chars(u32_to_chars(month as u32), 2);
            let dc = zero_pad_chars(u32_to_chars(day as u32), 2);
            let mut out: Vec<char> = Vec::new();
            push_all(&mut out, &yc);
            out.push('-');
            push_all(&mut out, &mc);
            out.push('-');
            push_all(&mut out, &dc);
            proof {
                assert(out@ =~= zero_pad(dec_digits(year as int), 4) + seq!['-'] + zero_pad(
                    dec_digits(month as int),
                    2,
                ) + seq!['-'] + zero_pad(dec_digits(day as int), 2));
            }
            out
        },
    }
}

/// The punctuation stripped from a candidate token's end.
pub open spec fn rss_token_trim() -> Seq<char> {
    seq!['.', ';', ':']
}

fn rss_token_trim_chars() -> (out: Vec<char>)
    ensures
        out@ == rss_token_trim(),
{
    let mut out: Vec<char> = Vec::new();
    out.push('.');
    out.push(';');
    out.push(':');
    assert(out@ =~= rss_token_trim());
    out
}

/// Whether a loose token qualifies as an allergen mark: `*`, one ASCII
/// capital, or a vendor code (`VEG`, `VS`, `ILM`, case-insensitively).
pub open spec fn spec_is_rss_token(token: Seq<char>) -> bool {
    let clean = trim_end_set(norm_ws(token), rss_token_trim());
    if clean.len() == 0 {
        false
    } else if clean == seq!['*'] {
        true
    } else if clean.len() == 1 && is_ascii_upper(clean[0]) {
        true
    } else {
        let u = upper_of(clean);
        u == "VEG"@ || u == "VS"@ || u == "ILM"@
    }
}

/// The canonical form of a loose allergen token (`VEG` becomes `Veg`, the
/// rest upper-cased); empty when the cleaned token is empty.
pub open spec fn spec_rss_token_norm(token: Seq<char>) -> Seq<char> {
    let clean = trim_end_set(norm_ws(token), rss_token_trim());
    if clean.len() == 0 {
        Seq::empty()
    } else if clean == seq!['*'] {
        seq!['*']
    } else {
        let u = upper_of(clean);
        if u == "VEG"@ {
            "Veg"@
        } else {
            u
        }
    }
}

pub fn is_rss_allergen_token(token: &Vec<char>) -> (r: bool)
    ensures
        r == spec_is_rss_token(token@),
{
    let normed = normalize_chars(token);
    let set = rss_token_trim_chars();
    let clean = crate::text::trim_end_any(&normed, &set);
    if clean.len() == 0 {
        return false;
    }
    if clean.len() == 1 && clean[0] == '*' {
        assert(clean@ =~= seq!['*']);
        return true;
    }
    assert(clean@ != seq!['*']);
    if clean.len() == 1 {
        let c = clean[0];
        if 'A' <= c && c <= 'Z' {
            return true;
        }
    }
    let cs = chars_to_string(&clean);
    let u = to_upper(cs.as_str());
    let uc = str_to_chars(u.as_str());
    vec_eq_str(&uc, "VEG") || vec_eq_str(&uc, "VS") || vec_eq_str(&uc, "ILM")
}

pub fn normalize_rss_allergen_token(token: &Vec<char>) -> (out: Vec<char>)
    ensures
        out@ == spec_rss_token_norm(token@),
{
    let normed = normalize_chars(token);
    let set = rss_token_trim_chars();
    let clean = crate::text::trim_end_any(&normed, &set);
    if clean.len() == 0 {
        let empty: Vec<char> = Vec::new();
        assert(empty@ =~= Seq::<char>::empty());
        return empty;
    }
    if clean.len() == 1 && clean[0] == '*' {
        assert(clean@ =~= seq!['*']);
        let mut star: Vec<char> = Vec::new();
        star.push('*');
        assert(star@ =~= seq!['*']);
        return star;
    }
    assert(clean@ != seq!['*']);
    let cs = chars_to_string(&clean);
    let u = to_upper(cs.as_str());
    let uc = str_to_chars(u.as_str());
    if vec_eq_str(&uc, "VEG") {
        str_to_chars("Veg")
    } else {
        uc
    }
}

/// First index in `[i, end]` that is `end` or holds a non-space.
pub open spec fn skip_sp_until(s: Seq<char>, i: int, end: int) -> int
    decreases end - i,
{
    if i < 0 || i >= end || end > s.len() {
        i
    } else if is_space(s[i]) {
        skip_sp_until(s, i + 1, end)
    } else {
        i
    }
}

/// First index in `[i, end]` that is `end` or holds a non-ASCII-letter.
pub open spec fn alpha_end(s: Seq<char>, i: int, end: int) -> int
    decreases end - i,
{
    if i < 0 || i >= end || end > s.len() {
        i
    } else if is_ascii_letter(s[i]) {
        alpha_end(s, i + 1, end)
    } else {
        i
    }
}

/// The group content `[a, end)` reads as allergen-mark tokens separated by
/// commas: `*` or a run of one to eight ASCII letters each.
pub open spec fn group_toks_ok(s: Seq<char>, a: int, end: int) -> bool
    decreases end - a, 1int,
    via group_toks_ok_dec
{
    if a < 0 || a >= end || end > s.len() {
        false
    } else if s[a] == '*' {
        after_tok(s, a + 1, end)
    } else {
        let b = alpha_end(s, a, end);
        if b == a || b - a > 8 {
            false
        } else {
            after_tok(s, b, end)
        }
    }
}

pub open spec fn after_tok(s: Seq<char>, b: int, end: int) -> bool
    decreases end - b, 0int,
    via after_tok_dec
{
    if b < 0 || end > s.len() || b > end {
        false
    } else {
        let c = skip_sp_until(s, b, end);
        if c == end {
            true
        } else if s[c] == ',' {
            group_toks_ok(s, skip_sp_until(s, c + 1, end), end)
        } else {
            false
        }
    }
}

#[via_fn]
proof fn group_toks_ok_dec(s: Seq<char>, a: int, end: int) {
    if 0 <= a && a < end && end <= s.len() {
        lemma_alpha_end_range(s, a, end);
    }
}

#[via_fn]
proof fn after_tok_dec(s: Seq<char>, b: int, end: int) {
    if 0 <= b && b <= end && end <= s.len() {
        lemma_skip_sp_range(s, b, end);
        let c = skip_sp_until(s, b, end);
        if c < end {
            lemma_skip_sp_range(s, c + 1, end);
        }
    }
}

proof fn lemma_skip_sp_range(s: Seq<char>, i: int, end: int)
    requires
        0 <= i <= end <= s.len(),
    ensures
        i <= skip_sp_until(s, i, end) <= end,
    decreases end - i,
{
    if i < end && is_space(s[i]) {
        lemma_skip_sp_range(s, i + 1, end);
    }
}

proof fn lemma_alpha_end_range(s: Seq<char>, i: int, end: int)
    requires
        0 <= i <= end <= s.len(),
    ensures
        i <= alpha_end(s, i, end) <= end,
    decreases end - i,
{
    if i < end && is_ascii_letter(s[i]) {
        lemma_alpha_end_range(s, i + 1, end);
    }
}

fn skip_sp_exec(v: &Vec<char>, i: usize, end: usize) -> (r: usize)
    requires
        i <= end <= v@.len(),
    ensures
        r as int == skip_sp_until(v@, i as int, end as int),
        i <= r <= end,
{
    proof {
        assert(v@.len() == v.len());
    }
    let mut j: usize = i;
    while j < end && is_space_char(v[j])
        invariant
            i <= j <= end <= v@.len(),
            v@.len() <= usize::MAX,
            skip_sp_until(v@, i as int, end as int) == skip_sp_until(v@, j as int, end as int),
        decreases end - j,
    {
        j += 1;
    }
    j
}

fn alpha_end_exec(v: &Vec<char>, i: usize, end: usize) -> (r: usize)
    requires
        i <= end <= v@.len(),
    ensures
        r as int == alpha_end(v@, i as int, end as int),
        i <= r <= end,
{
    proof {
        assert(v@.len() == v.len());
    }
    let mut j: usize = i;
    while j < end && (('A' <= v[j] && v[j] <= 'Z') || ('a' <= v[j] && v[j] <= 'z'))
        invariant
            i <= j <= end <= v@.len(),
            v@.len() <= usize::MAX,
            alpha_end(v@, i as int, end as int) == alpha_end(v@, j as int, end as int),
        decreases end - j,
    {
        j += 1;
    }
    j
}

fn group_toks_ok_exec(v: &Vec<char>, a: usize, end: usize) -> (r: bool)
    requires
        end <= v@.len(),
    ensures
        r == group_toks_ok(v@, a as int, end as int),
    decreases end - a, 1int,
{
    if a >= end {
        return false;
    }
    if v[a] == '*' {
        return after_tok_exec(v, a + 1, end);
    }
    let b = alpha_end_exec(v, a, end);
    if b == a || b - a > 8 {
        return false;
    }
    after_tok_exec(v, b, end)
}

fn after_tok_exec(v: &Vec<char>, b: usize, end: usize) -> (r: bool)
    requires
        b <= end <= v@.len(),
    ensures
        r == after_tok(v@, b as int, end as int),
    decreases end - b, 0int,
{
    let c = skip_sp_exec(v, b, end);
    if c == end {
        return true;
    }
    if v[c] == ',' {
        let d = skip_sp_exec(v, c + 1, end);
        return group_toks_ok_exec(v, d, end);
    }
    false
}

/// The normalized line already ends in a well-formed parenthesized
/// allergen-mark group.
pub open spec fn spec_has_paren_suffix(line: Seq<char>) -> bool {
    line.len() > 0 && line.last() == ')' && exists|i: int|
        0 <= i < line.len() - 1 && #[trigger] line[i] == '(' && group_toks_ok(
            line,
            i + 1,
            line.len() - 1,
        )
}

fn has_paren_suffix(line: &Vec<char>) -> (r: bool)
    ensures
        r == spec_has_paren_suffix(line@),
{
    if line.len() == 0 {
        return false;
    }
    if line[line.len() - 1] != ')' {
        return false;
    }
    let end = line.len() - 1;
    let mut i: usize = 0;
    while i < end
        invariant
            i <= end,
            end == line@.len() - 1,
            line@.last() == ')',
            forall|j: int|
                0 <= j < i ==> !(#[trigger] line@[j] == '(' && group_toks_ok(
                    line@,
                    j + 1,
                    line@.len() - 1,
                )),
        decreases end - i,
    {
        if line[i] == '(' {
            if group_toks_ok_exec(line, i + 1, end) {
                return true;
            }
        }
        i += 1;
    }
    assert(!spec_has_paren_suffix(line@));
    false
}

/// The canonical tokens of the maximal all-token tail of the parts.
pub open spec fn rss_tail_tokens(parts: Seq<Seq<char>>) -> Seq<Seq<char>>
    decreases parts.len(),
{
    if parts.len() == 0 {
        Seq::empty()
    } else {
        let cand = norm_ws(parts.last());
        if spec_is_rss_token(cand) && spec_rss_token_norm(cand).len() > 0 {
            rss_tail_tokens(parts.drop_last()).push(spec_rss_token_norm(cand))
        } else {
            Seq::empty()
        }
    }
}

proof fn lemma_rss_tail_len(parts: Seq<Seq<char>>)
    ensures
        rss_tail_tokens(parts).len() <= parts.len(),
    decreases parts.len(),
{
    if parts.len() > 0 {
        lemma_rss_tail_len(parts.drop_last());
    }
}

fn rss_tail_tokens_exec(parts: &Vec<Vec<char>>, n: usize) -> (out: Vec<Vec<char>>)
    requires
        n <= parts@.len(),
    ensures
        out@.map_values(|p: Vec<char>| p@) == rss_tail_tokens(
            parts@.map_values(|p: Vec<char>| p@).take(n as int),
        ),
    decreases n,
{
    let ghost sparts = parts@.map_values(|p: Vec<char>| p@);
    let ghost cur = sparts.take(n as int);
    if n == 0 {
        let none: Vec<Vec<char>> = Vec::new();
        assert(none@.map_values(|p: Vec<char>| p@) =~= Seq::<Seq<char>>::empty());
        return none;
    }
    proof {
        assert(cur.last() == sparts[n - 1]);
        assert(cur.drop_last() =~= sparts.take(n - 1));
    }
    let cand = normalize_chars(&parts[n - 1]);
    proof {
        crate::text::lemma_norm_ws_idempotent(sparts[n - 1]);
    }
    let none: Vec<Vec<char>> = Vec::new();
    assert(none@.map_values(|p: Vec<char>| p@) =~= Seq::<Seq<char>>::empty());
    if !is_rss_allergen_token(&cand) {
        return none;
    }
    let tok = normalize_rss_allergen_token(&cand);
    if tok.len() == 0 {
        return none;
    }
    let mut out = rss_tail_tokens_exec(parts, n - 1);
    let ghost pre = out@.map_values(|p: Vec<char>| p@);
    let ghost tv = tok@;
    out.push(tok);
    proof {
        assert(out@.map_values(|p: Vec<char>| p@) =~= pre.push(tv));
    }
    out
}

/// Peel one trailing short `[A-Za-z*]` token (at most four characters) off
/// a normalized line.
pub open spec fn rss_peel(text: Seq<char>) -> Option<(Seq<char>, Seq<char>)> {
    let j = rfind_space(text);
    if j < 0 {
        None
    } else {
        let cand = text.skip(j + 1);
        if !(1 <= cand.len() <= 4 && (forall|k: int|
            0 <= k < cand.len() ==> is_ascii_letter(#[trigger] cand[k]) || cand[k] == '*')) {
            None
        } else if !spec_is_rss_token(cand) || spec_rss_token_norm(cand).len() == 0 {
            None
        } else {
            let prefix = norm_ws(text.take(j));
            if prefix.len() == 0 || prefix == text {
                None
            } else {
                Some((prefix, spec_rss_token_norm(cand)))
            }
        }
    }
}

pub open spec fn rss_peel_all(text: Seq<char>) -> (Seq<char>, Seq<Seq<char>>)
    decreases text.len(),
    via rss_peel_all_dec
{
    match rss_peel(text) {
        Option::None => (text, Seq::empty()),
        Option::Some((p, t)) => {
            let r = rss_peel_all(p);
            (r.0, r.1.push(t))
        },
    }
}

#[via_fn]
proof fn rss_peel_all_dec(text: Seq<char>) {
    lemma_rss_peel_shrinks(text);
}

proof fn lemma_rss_peel_shrinks(text: Seq<char>)
    ensures
        match rss_peel(text) {
            Option::Some(p) => p.0.len() < text.len(),
            Option::None => true,
        },
{
    crate::text::lemma_rfind_space_props(text);
    let j = rfind_space(text);
    if j >= 0 {
        crate::text::lemma_norm_ws_len(text.take(j));
    }
}

fn rss_peel_exec(text: &Vec<char>) -> (r: Option<(Vec<char>, Vec<char>)>)
    ensures
        match r {
            Some(p) => rss_peel(text@) == Some((p.0@, p.1@)),
            None => rss_peel(text@) is None,
        },
{
    match rfind_space_vec(text) {
        None => None,
        Some(j) => {
            proof {
                assert(text@.len() == text.len());
            }
            let cand = vec_subrange(text, j + 1, text.len());
            proof {
                assert(cand@ =~= text@.skip(j + 1));
            }
            if cand.len() < 1 || cand.len() > 4 {
                return None;
            }
            let mut k: usize = 0;
            while k < cand.len()
                invariant
                    k <= cand@.len(),
                    cand@ == text@.skip(j + 1),
                    rfind_space(text@) == j as int,
                    j < text@.len(),
                    forall|x: int|
                        0 <= x < k ==> is_ascii_letter(#[trigger] cand@[x]) || cand@[x] == '*',
                decreases cand@.len() - k,
            {
                let c = cand[k];
                if !(('A' <= c && c <= 'Z') || ('a' <= c && c <= 'z') || c == '*') {
                    assert(!(is_ascii_letter(cand@[k as int]) || cand@[k as int] == '*'));
                    return None;
                }
                k += 1;
            }
            if !is_rss_allergen_token(&cand) {
                return None;
            }
            let tok = normalize_rss_allergen_token(&cand);
            if tok.len() == 0 {
                return None;
            }
            let head = vec_subrange(text, 0, j);
            proof {
                assert(head@ =~= text@.take(j as int));
            }
            let prefix = normalize_chars(&head);
            if prefix.len() == 0 {
                return None;
            }
            if crate::allergen::vec_chars_eq(&prefix, text) {
                return None;
            }
            Some((prefix, tok))
        },
    }
}

fn rss_peel_all_exec(text: &Vec<char>) -> (r: (Vec<char>, Vec<Vec<char>>))
    ensures
        ({
            let s = rss_peel_all(text@);
            r.0@ == s.0 && r.1@.map_values(|p: Vec<char>| p@) == s.1
        }),
    decreases text@.len(),
{
    proof {
        lemma_rss_peel_shrinks(text@);
    }
    match rss_peel_exec(text) {
        None => {
            let keep = vec_subrange(text, 0, text.len());
            assert(keep@ =~= text@);
            let none: Vec<Vec<char>> = Vec::new();
            assert(none@.map_values(|p: Vec<char>| p@) =~= Seq::<Seq<char>>::empty());
            (keep, none)
        },
        Some((prefix, tok)) => {
            let (m, mut ts) = rss_peel_all_exec(&prefix);
            let ghost pre = ts@.map_values(|p: Vec<char>| p@);
            let ghost tv = tok@;
            ts.push(tok);
            proof {
                assert(ts@.map_values(|p: Vec<char>| p@) =~= pre.push(tv));
            }
            (m, ts)
        },
    }
}

/// Normalize one menu line from loose RSS text: keep a line that already
/// ends in a parenthesized mark group; else strip one trailing separator,
/// and when at least two comma-separated parts end in allergen marks, peel
/// them (plus a trailing bare `*` and short trailing marks) into a
/// canonical parenthesized suffix.
pub open spec fn spec_normalize_rss_line(raw: Seq<char>) -> Seq<char> {
    let line = norm_ws(raw);
    if line.len() == 0 {
        Seq::empty()
    } else if spec_has_paren_suffix(line) {
        line
    } else {
        let compact = if line.last() == ';' || line.last() == ',' {
            trim_end_ws(line.drop_last())
        } else {
            line
        };
        let parts = crate::allergen::norm_parts(split_char(compact, ','));
        if parts.len() < 2 {
            compact
        } else {
            let suffix = rss_tail_tokens(parts);
            if suffix.len() == 0 {
                compact
            } else {
                let main0 = norm_ws(join_sep(parts.take(parts.len() - suffix.len() as int), ", "@));
                if main0.len() == 0 {
                    compact
                } else {
                    let starred = main0.len() >= 2 && main0.last() == '*' && trim_end_ws(
                        main0.drop_last(),
                    ).len() > 0;
                    let main1 = if starred {
                        norm_ws(trim_end_ws(main0.drop_last()))
                    } else {
                        main0
                    };
                    let toks1 = if starred {
                        seq![seq!['*']] + suffix
                    } else {
                        suffix
                    };
                    let peeled = rss_peel_all(main1);
                    peeled.0 + " ("@ + join_sep(peeled.1 + toks1, ", "@) + seq![')']
                }
            }
        }
    }
}

pub fn normalize_rss_component_line(raw: &Vec<char>) -> (out: Vec<char>)
    ensures
        out@ == spec_normalize_rss_line(raw@),
{
    let line = normalize_chars(raw);
    let empty: Vec<char> = Vec::new();
    assert(empty@ =~= Seq::<char>::empty());
    if line.len() == 0 {
        return empty;
    }
    if has_paren_suffix(&line) {
        return line;
    }
    let last = line[line.len() - 1];
    let compact: Vec<char> = if last == ';' || last == ',' {
        let head = vec_subrange(&line, 0, line.len() - 1);
        proof {
            assert(head@ =~= line@.drop_last());
        }
        trim_end_chars(&head)
    } else {
        line
    };
    let raw_parts = split_char_vec(&compact, ',');
    let parts = crate::allergen::norm_parts_pub(&raw_parts);
    let ghost sparts = parts@.map_values(|p: Vec<char>| p@);
    if parts.len() < 2 {
        return compact;
    }
    let suffix = rss_tail_tokens_exec(&parts, parts.len());
    proof {
        assert(sparts.take(parts@.len() as int) =~= sparts);
        lemma_rss_tail_len(sparts);
        assert(suffix@.map_values(|p: Vec<char>| p@).len() == suffix@.len());
    }
    if suffix.len() == 0 {
        return compact;
    }
    let keep = parts.len() - suffix.len();
    let head_parts = crate::allergen::vec_group_subrange_pub(&parts, 0, keep);
    proof {
        assert(head_parts@.map_values(|p: Vec<char>| p@) =~= sparts.take(keep as int));
    }
    let sep = str_to_chars(", ");
    let joined = join_with(&head_parts, &sep);
    let main0 = normalize_chars(&joined);
    if main0.len() == 0 {
        return compact;
    }
    let mut starred = false;
    let mut main1 = main0;
    if main1.len() >= 2 && main1[main1.len() - 1] == '*' {
        let head = vec_subrange(&main1, 0, main1.len() - 1);
        proof {
            assert(head@ =~= main1@.drop_last());
        }
        let trimmed = trim_end_chars(&head);
        if trimmed.len() > 0 {
            starred = true;
            main1 = normalize_chars(&trimmed);
        }
    }
    let (m, peeled) = rss_peel_all_exec(&main1);
    let ghost speeled = peeled@.map_values(|p: Vec<char>| p@);
    let mut toks: Vec<Vec<char>> = peeled;
    if starred {
        let mut star: Vec<char> = Vec::new();
        star.push('*');
        assert(star@ =~= seq!['*']);
        toks.push(star);
        proof {
            assert(toks@.map_values(|p: Vec<char>| p@) =~= speeled.push(seq!['*']));
            assert(speeled.push(seq!['*']) =~= speeled + seq![seq!['*']]);
        }
    }
    let ghost base = toks@.map_values(|p: Vec<char>| p@);
    let mut k: usize = 0;
    while k < suffix.len()
        invariant
            k <= suffix@.len(),
            toks@.map_values(|p: Vec<char>| p@) == base + suffix@.map_values(
                |p: Vec<char>| p@,
            ).take(k as int),
        decreases suffix@.len() - k,
    {
        let copy = vec_subrange(&suffix[k], 0, suffix[k].len());
        proof {
            assert(copy@ =~= suffix@.map_values(|p: Vec<char>| p@)[k as int]);
        }
        let ghost pre = toks@;
        toks.push(copy);
        proof {
            let f = |p: Vec<char>| p@;
            assert(toks@.map_values(f) =~= pre.map_values(f).push(copy@));
            assert(suffix@.map_values(f).take(k + 1) =~= suffix@.map_values(f).take(k as int).push(
                suffix@.map_values(f)[k as int],
            ));
            assert(base + suffix@.map_values(f).take(k as int).push(suffix@.map_values(f)[k as int])
                =~= (base + suffix@.map_values(f).take(k as int)).push(
                suffix@.map_values(f)[k as int],
            ));
        }
        k += 1;
    }
    proof {
        assert(suffix@.map_values(|p: Vec<char>| p@).take(suffix@.len() as int)
            =~= suffix@.map_values(|p: Vec<char>| p@));
    }
    let joined_toks = join_with(&toks, &sep);
    let mut out: Vec<char> = Vec::new();
    push_all(&mut out, &m);
    push_all(&mut out, &str_to_chars(" ("));
    push_all(&mut out, &joined_toks);
    out.push(')');
    proof {
        assert(out@ =~= m@ + " ("@ + joined_toks@ + seq![')']);
        let sline = norm_ws(raw@);
        let scompact = if sline.last() == ';' || sline.last() == ',' {
            trim_end_ws(sline.drop_last())
        } else {
            sline
        };
        assert(compact@ == scompact);
        let sp = crate::allergen::norm_parts(split_char(scompact, ','));
        assert(sparts == sp);
        let ssuffix = rss_tail_tokens(sp);
        assert(suffix@.map_values(|p: Vec<char>| p@) == ssuffix);
        let smain0 = norm_ws(join_sep(sp.take(sp.len() - ssuffix.len() as int), ", "@));
        assert(main0@ == smain0);
        let sstarred = smain0.len() >= 2 && smain0.last() == '*' && trim_end_ws(
            smain0.drop_last(),
        ).len() > 0;
        assert(starred == sstarred);
        let smain1 = if sstarred {
            norm_ws(trim_end_ws(smain0.drop_last()))
        } else {
            smain0
        };
        assert(main1@ == smain1);
        let stoks1 = if sstarred {
            seq![seq!['*']] + ssuffix
        } else {
            ssuffix
        };
        let speel = rss_peel_all(smain1);
        assert(m@ == speel.0);
        assert(toks@.map_values(|p: Vec<char>| p@) =~= speel.1 + stoks1);
        assert(joined_toks@ == join_sep(speel.1 + stoks1, ", "@));
    }
    out
}

proof fn lemma_find_ci_props(s: Seq<char>, pat: Seq<char>, from: int)
    ensures
        find_ci(s, pat, from) >= 0 ==> from <= find_ci(s, pat, from) < s.len() && matches_ci_at(
            s,
            pat,
            find_ci(s, pat, from),
        ),
    decreases s.len() - from,
{
    if 0 <= from < s.len() && !matches_ci_at(s, pat, from) {
        lemma_find_ci_props(s, pat, from + 1);
    }
}

/// Where an opening `<p ...>` paragraph marker's content begins.
pub open spec fn para_open_content(s: Seq<char>, i: int) -> Option<int> {
    if matches_ci_at(s, "<p"@, i) {
        let k = find_char(s.skip(i + 2), '>');
        if k >= 0 {
            Some(i + 2 + k + 1)
        } else {
            None
        }
    } else {
        None
    }
}

pub open spec fn para_bounds_from(s: Seq<char>, i: int) -> Option<(int, int)>
    decreases s.len() - i,
{
    if i < 0 || i >= s.len() {
        None
    } else {
        match para_open_content(s, i) {
            Option::Some(cs) => {
                let j = find_ci(s, "</p>"@, cs);
                if j >= 0 {
                    Some((cs, j))
                } else {
                    para_bounds_from(s, i + 1)
                }
            },
            Option::None => para_bounds_from(s, i + 1),
        }
    }
}

proof fn lemma_para_bounds_props(s: Seq<char>, i: int)
    requires
        0 <= i,
    ensures
        match para_bounds_from(s, i) {
            Option::Some(b) => i < b.0 && b.0 <= b.1 && b.1 < s.len(),
            Option::None => true,
        },
    decreases s.len() - i,
{
    if 0 <= i < s.len() {
        match para_open_content(s, i) {
            Option::Some(cs) => {
                crate::text::lemma_find_char_props(s.skip(i + 2), '>');
                let j = find_ci(s, "</p>"@, cs);
                if j >= 0 {
                    lemma_find_ci_props(s, "</p>"@, cs);
                } else {
                    lemma_para_bounds_props(s, i + 1);
                }
            },
            Option::None => {
                lemma_para_bounds_props(s, i + 1);
            },
        }
    }
}

/// The inner texts of the non-overlapping `<p ...>...</p>` blocks of `s`,
/// in order, scanning from `pos`.
pub open spec fn para_list(s: Seq<char>, pos: int) -> Seq<Seq<char>>
    decreases s.len() - pos,
    via para_list_dec
{
    if pos < 0 || pos >= s.len() {
        Seq::empty()
    } else {
        match para_bounds_from(s, pos) {
            Option::Some(b) => seq![s.subrange(b.0, b.1)] + para_list(
                s,
                if b.1 + 4 < s.len() {
                    b.1 + 4
                } else {
                    s.len() as int
                },
            ),
            Option::None => Seq::empty(),
        }
    }
}

#[via_fn]
proof fn para_list_dec(s: Seq<char>, pos: int) {
    if 0 <= pos < s.len() {
        lemma_para_bounds_props(s, pos);
    }
}

fn para_open_content_exec(v: &Vec<char>, i: usize) -> (r: Option<usize>)
    requires
        i <= v@.len(),
    ensures
        match r {
            Some(cs) => para_open_content(v@, i as int) == Some(cs as int) && i < cs <= v@.len(),
            None => para_open_content(v@, i as int) is None,
        },
{
    let pat = str_to_chars("<p");
    proof {
        reveal_strlit("<p");
    }
    if !check_match_ci_at(v, &pat, i) {
        return None;
    }
    proof {
        assert(i + 2 <= v@.len());
        assert(v@.len() == v.len());
    }
    let t = i + 2;
    proof {
        assert(v@.skip(t as int).len() == v@.len() - t);
    }
    match find_char_from(v, t, '>') {
        Some(k) => {
            proof {
                assert(find_char(v@.skip(t as int), '>') == k - t);
            }
            Some(k + 1)
        },
        None => None,
    }
}

fn para_bounds_exec(v: &Vec<char>, pos: usize) -> (r: Option<(usize, usize)>)
    requires
        pos <= v@.len(),
    ensures
        match r {
            Some(b) => para_bounds_from(v@, pos as int) == Some((b.0 as int, b.1 as int)) && pos
                < b.0 <= b.1 && b.1 < v@.len(),
            None => para_bounds_from(v@, pos as int) is None,
        },
{
    let close_pat = str_to_chars("</p>");
    let mut i: usize = pos;
    while i < v.len()
        invariant
            pos <= i <= v@.len(),
            close_pat@ == "</p>"@,
            para_bounds_from(v@, pos as int) == para_bounds_from(v@, i as int),
        decreases v@.len() - i,
    {
        match para_open_content_exec(v, i) {
            Some(cs) => {
                match find_ci_exec(v, &close_pat, cs) {
                    Some(j) => {
                        proof {
                            assert(para_bounds_from(v@, i as int) == Some((cs as int, j as int)));
                            lemma_para_bounds_props(v@, pos as int);
                        }
                        return Some((cs, j));
                    },
                    None => {},
                }
            },
            None => {},
        }
        i += 1;
    }
    None
}

/// Map a paragraph's raw content to a normalized menu line.
pub open spec fn spec_para_line(p: Seq<char>) -> Seq<char> {
    spec_normalize_rss_line(spec_strip_html(p))
}

/// The normalized non-empty menu lines of the paragraphs from `pos` on.
pub open spec fn para_lines(s: Seq<char>, pos: int) -> Seq<Seq<char>>
    decreases s.len() - pos,
    via para_lines_dec
{
    if pos < 0 || pos >= s.len() {
        Seq::empty()
    } else {
        match para_bounds_from(s, pos) {
            Option::Some(b) => {
                let l = spec_para_line(s.subrange(b.0, b.1));
                let rest = para_lines(
                    s,
                    if b.1 + 4 < s.len() {
                        b.1 + 4
                    } else {
                        s.len() as int
                    },
                );
                if l.len() > 0 {
                    seq![l] + rest
                } else {
                    rest
                }
            },
            Option::None => Seq::empty(),
        }
    }
}

#[via_fn]
proof fn para_lines_dec(s: Seq<char>, pos: int) {
    if 0 <= pos < s.len() {
        lemma_para_bounds_props(s, pos);
    }
}

/// The menu components of an RSS description: the decoded description's
/// paragraph lines, or the whole stripped description when no paragraph
/// yields a line.
pub open spec fn spec_rss_components(description_raw: Seq<char>) -> Seq<Seq<char>> {
    let decoded = html_decoded(description_raw);
    let lines = para_lines(decoded, 0);
    if lines.len() == 0 {
        let fb = spec_para_line(decoded);
        if fb.len() > 0 {
            seq![fb]
        } else {
            Seq::empty()
        }
    } else {
        lines
    }
}

fn para_lines_exec(v: &Vec<char>, pos: usize) -> (out: Vec<Vec<char>>)
    requires
        pos <= v@.len(),
    ensures
        out@.map_values(|p: Vec<char>| p@) == para_lines(v@, pos as int),
    decreases v@.len() - pos,
{
    let none: Vec<Vec<char>> = Vec::new();
    assert(none@.map_values(|p: Vec<char>| p@) =~= Seq::<Seq<char>>::empty());
    if pos == v.len() {
        return none;
    }
    match para_bounds_exec(v, pos) {
        None => none,
        Some((cs, ce)) => {
            let content = vec_subrange(v, cs, ce);
            proof {
                assert(content@ =~= v@.subrange(cs as int, ce as int));
            }
            let stripped = strip_html_text(&content);
            let line = normalize_rss_component_line(&stripped);
            let next: usize = if v.len() - ce > 4 {
                ce + 4
            } else {
                v.len()
            };
            proof {
                assert(v@.len() == v.len());
                assert(next as int == if ce + 4 < v@.len() {
                    ce + 4
                } else {
                    v@.len() as int
                });
            }
            let mut rest = para_lines_exec(v, next);
            let ghost srest = rest@.map_values(|p: Vec<char>| p@);
            if line.len() > 0 {
                let ghost lv = line@;
                rest.insert(0, line);
                proof {
                    assert(rest@.map_values(|p: Vec<char>| p@) =~= seq![lv] + srest);
                }
                rest
            } else {
                assert(line@.len() == 0);
                rest
            }
        },
    }
}

pub fn parse_rss_components(description_raw: &Vec<char>) -> (out: Vec<Vec<char>>)
    ensures
        out@.map_values(|p: Vec<char>| p@) == spec_rss_components(description_raw@),
{
    let ds = chars_to_string(description_raw);
    let decoded_str = decode_entities(ds.as_str());
    let decoded = str_to_chars(decoded_str.as_str());
    let lines = para_lines_exec(&decoded, 0);
    if lines.len() == 0 {
        proof {
            assert(lines@.map_values(|p: Vec<char>| p@).len() == 0);
        }
        let stripped = strip_html_text(&decoded);
        let fb = normalize_rss_component_line(&stripped);
        if fb.len() > 0 {
            let ghost fv = fb@;
            let mut one: Vec<Vec<char>> = Vec::new();
            one.push(fb);
            proof {
                assert(one@.map_values(|p: Vec<char>| p@) =~= seq![fv]);
            }
            one
        } else {
            assert(fb@.len() == 0);
            let none: Vec<Vec<char>> = Vec::new();
            assert(none@.map_values(|p: Vec<char>| p@) =~= Seq::<Seq<char>>::empty());
            none
        }
    } else {
        lines
    }
}

/// Parse a current-day RSS payload against the reference date `today`:
/// date from the item title (the guid as fallback), components from the
/// description's paragraphs, the catalog entry supplying fallback name and
/// url; the entry counts as today's only when its date equals `today`, and
/// a group with no components is excluded from the menu.
pub open spec fn spec_parse_rss(
    xml: Seq<char>,
    rest: crate::restaurant::RestaurantView,
    language: Seq<char>,
    today: Seq<char>,
) -> crate::model::FetchOutputView {
    let channel = spec_rss_tag_content(xml, "channel"@);
    let base = if channel.len() == 0 {
        xml
    } else {
        channel
    };
    let item = spec_rss_item_content(base);
    let channel_title = spec_strip_html(spec_rss_tag_content(base, "title"@));
    let item_title = spec_strip_html(spec_rss_tag_content(item, "title"@));
    let item_guid = spec_strip_html(spec_rss_tag_content(item, "guid"@));
    let item_link = spec_strip_html(spec_rss_tag_content(item, "link"@));
    let desc = spec_rss_tag_content(item, "description"@);
    let date0 = spec_rss_date_iso(item_title);
    let date = if date0.len() == 0 {
        spec_rss_date_iso(item_guid)
    } else {
        date0
    };
    let is_today = date.len() > 0 && date == today;
    let comps = spec_rss_components(desc);
    let name = if channel_title.len() > 0 {
        channel_title
    } else {
        rest.name
    };
    let url = if item_link.len() > 0 {
        item_link
    } else {
        match rest.url {
            Option::Some(u) => u,
            Option::None => Seq::empty(),
        }
    };
    crate::model::FetchOutputView {
        ok: true,
        error_message: Seq::empty(),
        today_menu: if is_today {
            Some(
                crate::model::TodayMenuView {
                    date_iso: today,
                    lunch_time: Seq::empty(),
                    menus: if comps.len() > 0 {
                        seq![
                            crate::model::MenuGroupView {
                                name: if language == "fi"@ {
                                    "Lounas"@
                                } else {
                                    "Lunch"@
                                },
                                price: Seq::empty(),
                                components: comps,
                            },
                        ]
                    } else {
                        Seq::empty()
                    },
                },
            )
        } else {
            None
        },
        restaurant_name: name,
        restaurant_url: url,
        provider: Provider::CompassRss,
        raw_json: xml,
        payload_date: date,
    }
}

pub fn parse_compass_rss_payload(
    xml_text: &str,
    restaurant: &Restaurant,
    language: &str,
    today: &str,
) -> (r: FetchOutput)
    ensures
        r@ == spec_parse_rss(xml_text@, restaurant@, language@, today@),
{
    let xml = str_to_chars(xml_text);
    let channel = rss_tag_content(&xml, "channel");
    let base: Vec<char> = if channel.len() == 0 {
        let copy = vec_subrange(&xml, 0, xml.len());
        assert(copy@ =~= xml@);
        copy
    } else {
        channel
    };
    let item = rss_item_content(&base);
    let channel_title = strip_html_text(&rss_tag_content(&base, "title"));
    let item_title = strip_html_text(&rss_tag_content(&item, "title"));
    let item_guid = strip_html_text(&rss_tag_content(&item, "guid"));
    let item_link = strip_html_text(&rss_tag_content(&item, "link"));
    let desc = rss_tag_content(&item, "description");
    let date0 = parse_rss_menu_date_iso(&item_title);
    let date: Vec<char> = if date0.len() == 0 {
        parse_rss_menu_date_iso(&item_guid)
    } else {
        date0
    };
    let today_chars = str_to_chars(today);
    let is_today = date.len() > 0 && crate::allergen::vec_chars_eq(&date, &today_chars);
    let comps = parse_rss_components(&desc);
    let name: String = if channel_title.len() > 0 {
        chars_to_string(&channel_title)
    } else {
        String::from_str(restaurant.name)
    };
    let url: String = if item_link.len() > 0 {
        chars_to_string(&item_link)
    } else {
        match restaurant.url {
            Some(u) => String::from_str(u),
            None => String::new(),
        }
    };
    let today_menu: Option<TodayMenu> = if is_today {
        let mut components: Vec<String> = Vec::new();
        let ghost scomps = comps@.map_values(|p: Vec<char>| p@);
        let mut k: usize = 0;
        proof {
            assert(components@.map_values(|s2: String| s2@) =~= scomps.take(0));
        }
        while k < comps.len()
            invariant
                k <= comps@.len(),
                scomps == comps@.map_values(|p: Vec<char>| p@),
                components@.map_values(|s2: String| s2@) == scomps.take(k as int),
            decreases comps@.len() - k,
        {
            let c = chars_to_string(&comps[k]);
            proof {
                assert(c@ == scomps[k as int]);
            }
            let ghost pre = components@;
            components.push(c);
            proof {
                assert(components@.map_values(|s2: String| s2@) =~= pre.map_values(
                    |s2: String| s2@,
                ).push(scomps[k as int]));
                assert(scomps.take(k + 1) =~= scomps.take(k as int).push(scomps[k as int]));
            }
            k += 1;
        }
        proof {
            assert(scomps.take(comps@.len() as int) =~= scomps);
        }
        let mut menus: Vec<MenuGroup> = Vec::new();
        if components.len() > 0 {
            proof {
                assert(components@.map_values(|s2: String| s2@).len() > 0);
            }
            let group_name: String = if crate::text::str_eq(language, "fi") {
                String::from_str("Lounas")
            } else {
                String::from_str("Lunch")
            };
            let group = MenuGroup { name: group_name, price: String::new(), components };
            menus.push(group);
        } else {
            proof {
                assert(components@.map_values(|s2: String| s2@).len() == 0);
                assert(menus@.map_values(|m: MenuGroup| m@) =~= Seq::<
                    crate::model::MenuGroupView,
                >::empty());
            }
        }
        let menu = TodayMenu {
            date_iso: String::from_str(today),
            lunch_time: String::new(),
            menus,
        };
        proof {
            let scomps_spec = spec_rss_components(spec_rss_tag_content(
                spec_rss_item_content(
                    if spec_rss_tag_content(xml_text@, "channel"@).len() == 0 {
                        xml_text@
                    } else {
                        spec_rss_tag_content(xml_text@, "channel"@)
                    },
                ),
                "description"@,
            ));
            if scomps_spec.len() > 0 {
                assert(menu@.menus =~= seq![
                    crate::model::MenuGroupView {
                        name: if language@ == "fi"@ {
                            "Lounas"@
                        } else {
                            "Lunch"@
                        },
                        price: Seq::<char>::empty(),
                        components: scomps_spec,
                    },
                ]);
            } else {
                assert(menu@.menus =~= Seq::<crate::model::MenuGroupView>::empty());
            }
        }
        Some(menu)
    } else {
        None
    };
    let r = FetchOutput {
        ok: true,
        error_message: String::new(),
        today_menu,
        restaurant_name: name,
        restaurant_url: url,
        provider: Provider::CompassRss,
        raw_json: String::from_str(xml_text),
        payload_date: chars_to_string(&date),
    };
    r
}

} // verus!

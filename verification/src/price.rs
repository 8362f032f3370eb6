use vstd::prelude::*;

use crate::casefold::{char_is_alphabetic, is_alpha, lower_of, to_lower};
use crate::allergen::norm_parts;
use crate::text::{
    all_digits, chars_to_string, fold_digits, is_ascii_digit, join_sep, join_with, matches_at,
    norm_ws, normalize_chars, split_char, split_char_vec, str_to_chars, trim_end_set,
    trim_start_set, trim_any, check_match_at, find_char, parse_u32_chars,
    vec_subrange,
};

verus! {

/// Which price classes the caller wants shown.
#[derive(Debug, Clone, Copy)]
pub struct PriceGroups {
    pub student: bool,
    pub staff: bool,
    pub guest: bool,
}

/// The price class a segment is classified into.
#[derive(Debug, Clone, Copy, PartialEq, Eq, Structural)]
pub enum PriceGroup {
    Student,
    Staff,
    Guest,
}

pub open spec fn is_price_char(c: char) -> bool {
    is_ascii_digit(c) || c == ',' || c == '.'
}

/// The maximal runs of digit/comma/period characters in `s`, given the run
/// `cur` already in progress.
pub open spec fn price_tokens_loop(s: Seq<char>, cur: Seq<char>) -> Seq<Seq<char>>
    decreases s.len(),
{
    if s.len() == 0 {
        if cur.len() > 0 {
            seq![cur]
        } else {
            Seq::empty()
        }
    } else if is_price_char(s[0]) {
        price_tokens_loop(s.drop_first(), cur.push(s[0]))
    } else if cur.len() > 0 {
        seq![cur] + price_tokens_loop(s.drop_first(), Seq::empty())
    } else {
        price_tokens_loop(s.drop_first(), Seq::empty())
    }
}

/// Parse a (whole, cent) decimal from the cleaned digit run: plain digits,
/// or digits '.' digits; cents beyond the second decimal digit are dropped.
pub open spec fn spec_cents_of_clean(t: Seq<char>) -> Option<u64> {
    if t.len() == 0 {
        None
    } else if find_char(t, '.') < 0 {
        if all_digits(t) && fold_digits(t, 0) <= 0xffff_ffff {
            Some((fold_digits(t, 0) * 100) as u64)
        } else {
            None
        }
    } else {
        let parts = split_char(t, '.');
        if parts.len() != 2 {
            None
        } else {
            let ip = parts[0];
            let fp = parts[1];
            if ip.len() > 0 && fp.len() > 0 && all_digits(ip) && all_digits(fp) && fold_digits(
                ip,
                0,
            ) <= 0xffff_ffff {
                let frac = if fp.len() == 1 {
                    fold_digits(fp, 0) * 10
                } else {
                    fold_digits(fp.take(2), 0)
                };
                Some((fold_digits(ip, 0) * 100 + frac) as u64)
            } else {
                None
            }
        }
    }
}

/// The numeric value of a price segment, in euro cents: the last
/// digit/comma/period run, commas read as periods, stray periods trimmed.
pub open spec fn spec_price_cents(s: Seq<char>) -> Option<u64> {
    let toks = price_tokens_loop(s, Seq::empty());
    if toks.len() == 0 {
        None
    } else {
        let t = toks.last().map_values(|c: char| if c == ',' { '.' } else { c });
        let cleaned = trim_start_set(trim_end_set(t, seq!['.']), seq!['.']);
        spec_cents_of_clean(cleaned)
    }
}

fn price_tokens(v: &Vec<char>) -> (out: Vec<Vec<char>>)
    ensures
        out@.map_values(|p: Vec<char>| p@) == price_tokens_loop(v@, Seq::empty()),
{
    let mut out: Vec<Vec<char>> = Vec::new();
    let mut cur: Vec<char> = Vec::new();
    let mut i: usize = 0;
    proof {
        assert(v@.skip(0) =~= v@);
        assert(out@.map_values(|p: Vec<char>| p@) =~= Seq::<Seq<char>>::empty());
        assert(cur@ =~= Seq::<char>::empty());
        assert(out@.map_values(|p: Vec<char>| p@) + price_tokens_loop(v@, cur@)
            =~= price_tokens_loop(v@, cur@));
    }
    while i < v.len()
        invariant
            i <= v@.len(),
            price_tokens_loop(v@, Seq::empty()) == out@.map_values(|p: Vec<char>| p@)
                + price_tokens_loop(v@.skip(i as int), cur@),
        decreases v@.len() - i,
    {
        let ghost rest = v@.skip(i as int);
        proof {
            assert(rest[0] == v@[i as int]);
            assert(rest.drop_first() =~= v@.skip(i + 1));
        }
        let c = v[i];
        if ('0' <= c && c <= '9') || c == ',' || c == '.' {
            cur.push(c);
        } else if cur.len() > 0 {
            let ghost scur = cur@;
            let ghost pre = out@;
            let done = cur;
            out.push(done);
            cur = Vec::new();
            proof {
                assert(cur@ =~= Seq::<char>::empty());
                assert(out@.map_values(|p: Vec<char>| p@) =~= pre.map_values(|p: Vec<char>| p@)
                    + seq![scur]);
                assert(price_tokens_loop(rest, scur) == seq![scur] + price_tokens_loop(
                    v@.skip(i + 1),
                    Seq::empty(),
                ));
                assert((pre.map_values(|p: Vec<char>| p@) + seq![scur]) + price_tokens_loop(
                    v@.skip(i + 1),
                    Seq::empty(),
                ) =~= pre.map_values(|p: Vec<char>| p@) + (seq![scur] + price_tokens_loop(
                    v@.skip(i + 1),
                    Seq::empty(),
                )));
            }
        } else {
            assert(cur@ =~= Seq::<char>::empty());
        }
        i += 1;
    }
    proof {
        assert(v@.skip(v@.len() as int) =~= Seq::<char>::empty());
    }
    if cur.len() > 0 {
        let ghost scur = cur@;
        let ghost pre = out@;
        let done = cur;
        out.push(done);
        proof {
            assert(price_tokens_loop(Seq::<char>::empty(), scur) == seq![scur]);
            assert(out@.map_values(|p: Vec<char>| p@) =~= pre.map_values(|p: Vec<char>| p@)
                + seq![scur]);
        }
    } else {
        proof {
            assert(cur@ =~= Seq::<char>::empty());
            assert(price_tokens_loop(Seq::<char>::empty(), Seq::<char>::empty())
                =~= Seq::<Seq<char>>::empty());
            assert(out@.map_values(|p: Vec<char>| p@) + Seq::<Seq<char>>::empty()
                =~= out@.map_values(|p: Vec<char>| p@));
        }
    }
    out
}

/// The numeric value of one price segment in euro cents, mirroring a
/// decimal parse of the last digit run.
pub fn parse_price_cents(segment: &Vec<char>) -> (r: Option<u64>)
    ensures
        r == spec_price_cents(segment@),
{
    let toks = price_tokens(segment);
    if toks.len() == 0 {
        assert(price_tokens_loop(segment@, Seq::empty()).len() == 0);
        return None;
    }
    let last = &toks[toks.len() - 1];
    let ghost stoks = price_tokens_loop(segment@, Seq::empty());
    proof {
        assert(last@ == stoks.last());
    }
    let mut t: Vec<char> = Vec::new();
    let mut i: usize = 0;
    while i < last.len()
        invariant
            i <= last@.len(),
            t@ == last@.take(i as int).map_values(|c: char| if c == ',' { '.' } else { c }),
        decreases last@.len() - i,
    {
        let c = last[i];
        if c == ',' {
            t.push('.');
        } else {
            t.push(c);
        }
        assert(t@ =~= last@.take(i + 1).map_values(|c: char| if c == ',' { '.' } else { c }));
        i += 1;
    }
    assert(last@.take(last@.len() as int) =~= last@);
    let mut dots: Vec<char> = Vec::new();
    dots.push('.');
    assert(dots@ =~= seq!['.']);
    let cleaned = trim_any(&t, &dots);
    cents_of_clean(&cleaned)
}

fn cents_of_clean(t: &Vec<char>) -> (r: Option<u64>)
    ensures
        r == spec_cents_of_clean(t@),
{
    if t.len() == 0 {
        return None;
    }
    proof {
        assert(t@.skip(0) =~= t@);
    }
    let has_dot = match crate::text::find_char_from(t, 0, '.') {
        Some(_) => true,
        None => false,
    };
    if !has_dot {
        match parse_digits_u32(t) {
            Some(n) => Some(n as u64 * 100),
            None => None,
        }
    } else {
        let parts = split_char_vec(t, '.');
        let ghost sparts = split_char(t@, '.');
        proof {
            assert(parts@.map_values(|p: Vec<char>| p@).len() == sparts.len());
        }
        if parts.len() != 2 {
            return None;
        }
        proof {
            assert(parts@[0]@ == sparts[0]);
            assert(parts@[1]@ == sparts[1]);
        }
        let ip = &parts[0];
        let fp = &parts[1];
        if ip.len() == 0 || fp.len() == 0 {
            return None;
        }
        let whole = match parse_digits_u32(ip) {
            Some(n) => n,
            None => {
                return None;
            },
        };
        let frac: u64 = if fp.len() == 1 {
            proof {
                assert(fp@.drop_first() =~= Seq::<char>::empty());
                let d0 = crate::text::digit_val(fp@[0]);
                assert(fold_digits(fp@, 0) == fold_digits(fp@.drop_first(), 0 * 10 + d0));
                assert(fold_digits(Seq::<char>::empty(), d0) == d0);
                assert(fold_digits(fp@, 0) == d0);
                if all_digits(fp@) {
                    assert(is_ascii_digit(fp@[0]));
                    assert(fold_digits(fp@, 0) <= 9);
                }
            }
            match parse_digits_u32(fp) {
                Some(n) => n as u64 * 10,
                None => {
                    return None;
                },
            }
        } else {
            let two = vec_subrange(fp, 0, 2);
            proof {
                assert(two@ =~= fp@.take(2));
                assert(two@.drop_first() =~= fp@.take(2).drop_first());
                assert(fp@.take(2).drop_first().drop_first() =~= Seq::<char>::empty());
                if all_digits(two@) {
                    assert(is_ascii_digit(two@[0]));
                    assert(is_ascii_digit(two@[1]));
                    let d0 = crate::text::digit_val(two@[0]);
                    let d1 = crate::text::digit_val(two@[1]);
                    assert(two@.drop_first()[0] == two@[1]);
                    assert(two@.drop_first().drop_first() =~= Seq::<char>::empty());
                    assert(fold_digits(two@, 0) == fold_digits(two@.drop_first(), d0));
                    assert(fold_digits(two@.drop_first(), d0) == fold_digits(
                        two@.drop_first().drop_first(),
                        d0 * 10 + d1,
                    ));
                    assert(fold_digits(Seq::<char>::empty(), d0 * 10 + d1) == d0 * 10 + d1);
                    assert(fold_digits(two@, 0) <= 99);
                }
            }
            match parse_digits_u32(&two) {
                Some(n) => n as u64,
                None => {
                    proof {
                        assert(!all_digits(two@));
                        assert(!all_digits(fp@)) by {
                            if all_digits(fp@) {
                                assert forall|j: int| 0 <= j < 2 implies is_ascii_digit(
                                    #[trigger] two@[j],
                                ) by {
                                    assert(two@[j] == fp@[j]);
                                    assert(is_ascii_digit(fp@[j]));
                                }
                            }
                        }
                    }
                    return None;
                },
            }
        };
        if !check_all_digits(fp) {
            return None;
        }
        Some(whole as u64 * 100 + frac)
    }
}

fn check_all_digits(v: &Vec<char>) -> (r: bool)
    ensures
        r == all_digits(v@),
{
    let mut i: usize = 0;
    while i < v.len()
        invariant
            i <= v@.len(),
            forall|j: int| 0 <= j < i ==> is_ascii_digit(#[trigger] v@[j]),
        decreases v@.len() - i,
    {
        let c = v[i];
        if !('0' <= c && c <= '9') {
            assert(!is_ascii_digit(v@[i as int]));
            return false;
        }
        i += 1;
    }
    true
}

/// Parse plain decimal digits (no sign), failing above `u32::MAX` or on a
/// non-digit, as `spec_cents_of_clean` asks.
fn parse_digits_u32(v: &Vec<char>) -> (r: Option<u32>)
    ensures
        match r {
            Some(n) => v@.len() > 0 && all_digits(v@) && fold_digits(v@, 0) == n as int && n
                <= 0xffff_ffff,
            None => v@.len() == 0 || !all_digits(v@) || fold_digits(v@, 0) > 0xffff_ffff,
        },
{
    if v.len() == 0 {
        return None;
    }
    if v[0] == '+' {
        assert(!is_ascii_digit(v@[0]));
        return None;
    }
    let r = parse_u32_chars(v);
    proof {
        let body = if v@.len() > 0 && v@[0] == '+' {
            v@.drop_first()
        } else {
            v@
        };
        assert(body == v@);
        if all_digits(v@) {
            crate::text::lemma_fold_ge(v@, 0);
        }
    }
    r
}

/// The label words that may begin a price-class segment.
pub open spec fn spec_group_labels() -> Seq<Seq<char>> {
    seq![
        "student"@,
        "staff"@,
        "guest"@,
        "opiskelija"@,
        "opisk"@,
        "op"@,
        "henkilokunta"@,
        "henkil\u{f6}kunta"@,
        "hk"@,
        "vieras"@,
    ]
}

fn group_labels() -> (out: Vec<Vec<char>>)
    ensures
        out@.map_values(|p: Vec<char>| p@) == spec_group_labels(),
{
    let mut out: Vec<Vec<char>> = Vec::new();
    out.push(str_to_chars("student"));
    out.push(str_to_chars("staff"));
    out.push(str_to_chars("guest"));
    out.push(str_to_chars("opiskelija"));
    out.push(str_to_chars("opisk"));
    out.push(str_to_chars("op"));
    out.push(str_to_chars("henkilokunta"));
    out.push(str_to_chars("henkil\u{f6}kunta"));
    out.push(str_to_chars("hk"));
    out.push(str_to_chars("vieras"));
    assert(out@.map_values(|p: Vec<char>| p@) =~= spec_group_labels());
    out
}

/// An occurrence of a word starting at `start` of length `len` is at a word
/// boundary: no alphabetic character directly before or after it.
pub open spec fn spec_word_boundary(s: Seq<char>, start: int, len: int) -> bool {
    (start == 0 || !is_alpha(s[start - 1])) && (start + len >= s.len() || !is_alpha(s[start + len]))
}

fn check_word_boundary(s: &Vec<char>, start: usize, len: usize) -> (r: bool)
    requires
        start + len <= s@.len(),
    ensures
        r == spec_word_boundary(s@, start as int, len as int),
{
    proof {
        assert(s@.len() == s.len());
    }
    let prev_ok = if start == 0 {
        true
    } else {
        !char_is_alphabetic(s[start - 1])
    };
    let next_ok = if start + len >= s.len() {
        true
    } else {
        !char_is_alphabetic(s[start + len])
    };
    prev_ok && next_ok
}

/// Some label word occurs at `i` of `s`, at a word boundary.
pub open spec fn label_at(s: Seq<char>, i: int) -> bool {
    exists|k: int|
        0 <= k < spec_group_labels().len() && matches_at(s, #[trigger] spec_group_labels()[k], i)
            && spec_word_boundary(s, i, spec_group_labels()[k].len() as int)
}

fn check_label_at(s: &Vec<char>, labels: &Vec<Vec<char>>, i: usize) -> (r: bool)
    requires
        i <= s@.len(),
        labels@.map_values(|p: Vec<char>| p@) == spec_group_labels(),
    ensures
        r == label_at(s@, i as int),
{
    let mut k: usize = 0;
    while k < labels.len()
        invariant
            k <= labels@.len(),
            i <= s@.len(),
            labels@.map_values(|p: Vec<char>| p@) == spec_group_labels(),
            forall|j: int|
                0 <= j < k ==> !(matches_at(s@, #[trigger] spec_group_labels()[j], i as int)
                    && spec_word_boundary(s@, i as int, spec_group_labels()[j].len() as int)),
        decreases labels@.len() - k,
    {
        let lab = &labels[k];
        proof {
            assert(lab@ == spec_group_labels()[k as int]);
        }
        if check_match_at(s, lab, i) {
            if check_word_boundary(s, i, lab.len()) {
                proof {
                    assert(matches_at(s@, spec_group_labels()[k as int], i as int));
                }
                return true;
            }
        }
        k += 1;
    }
    assert(!label_at(s@, i as int));
    false
}

/// The ascending positions of `s` where some label word starts at a word
/// boundary, from position `i` on.
pub open spec fn label_starts_from(s: Seq<char>, i: int) -> Seq<int>
    decreases s.len() - i,
{
    if i < 0 || i >= s.len() {
        Seq::empty()
    } else if label_at(s, i) {
        seq![i] + label_starts_from(s, i + 1)
    } else {
        label_starts_from(s, i + 1)
    }
}

fn label_starts(s: &Vec<char>) -> (out: Vec<usize>)
    ensures
        out@.map_values(|x: usize| x as int) == label_starts_from(s@, 0),
{
    let labels = group_labels();
    let mut out: Vec<usize> = Vec::new();
    let mut i: usize = 0;
    proof {
        assert(out@.map_values(|x: usize| x as int) =~= Seq::<int>::empty());
        assert(out@.map_values(|x: usize| x as int) + label_starts_from(s@, 0) =~= label_starts_from(
            s@,
            0,
        ));
    }
    while i < s.len()
        invariant
            i <= s@.len(),
            labels@.map_values(|p: Vec<char>| p@) == spec_group_labels(),
            label_starts_from(s@, 0) == out@.map_values(|x: usize| x as int) + label_starts_from(
                s@,
                i as int,
            ),
        decreases s@.len() - i,
    {
        if check_label_at(s, &labels, i) {
            let ghost pre = out@;
            out.push(i);
            proof {
                assert(out@.map_values(|x: usize| x as int) =~= pre.map_values(|x: usize| x as int)
                    + seq![i as int]);
                assert((pre.map_values(|x: usize| x as int) + seq![i as int]) + label_starts_from(
                    s@,
                    i + 1,
                ) =~= pre.map_values(|x: usize| x as int) + (seq![i as int] + label_starts_from(
                    s@,
                    i + 1,
                )));
            }
        }
        i += 1;
    }
    out
}

pub open spec fn clamp_to(i: int, n: int) -> int {
    if i < n {
        i
    } else {
        n
    }
}

/// The normalized, non-empty slices of `price` between consecutive label
/// starts (the last slice runs to the end).
pub open spec fn spec_slice_segments(price: Seq<char>, starts: Seq<int>) -> Seq<Seq<char>>
    decreases starts.len(),
{
    if starts.len() == 0 {
        Seq::empty()
    } else {
        let a = clamp_to(starts[0], price.len() as int);
        let b = if starts.len() > 1 {
            clamp_to(starts[1], price.len() as int)
        } else {
            price.len() as int
        };
        let seg = if 0 <= a && a <= b {
            norm_ws(price.subrange(a, b))
        } else {
            Seq::empty()
        };
        let rest = spec_slice_segments(price, starts.drop_first());
        if seg.len() > 0 {
            seq![seg] + rest
        } else {
            rest
        }
    }
}

/// Split one provider price string into price-class segments: on '/' when
/// present, else at label-word starts; a string yielding nothing stays one
/// segment.
pub open spec fn spec_split_price_segments(price: Seq<char>) -> Seq<Seq<char>> {
    let slash = norm_parts(split_char(price, '/'));
    if slash.len() > 1 {
        slash
    } else {
        let starts = label_starts_from(lower_of(price), 0);
        if starts.len() <= 1 {
            if slash.len() == 1 {
                seq![slash[0]]
            } else {
                seq![price]
            }
        } else {
            let segs = spec_slice_segments(price, starts);
            if segs.len() == 0 {
                seq![price]
            } else {
                segs
            }
        }
    }
}

pub fn split_compass_price_segments(price: &Vec<char>) -> (out: Vec<Vec<char>>)
    ensures
        out@.map_values(|p: Vec<char>| p@) == spec_split_price_segments(price@),
{
    let raw_parts = split_char_vec(price, '/');
    let slash = crate::allergen::norm_parts_pub(&raw_parts);
    if slash.len() > 1 {
        return slash;
    }
    let price_str = chars_to_string(price);
    let lower_str = to_lower(&price_str);
    let lower = str_to_chars(&lower_str);
    let starts = label_starts(&lower);
    let ghost sstarts = label_starts_from(lower_of(price@), 0);
    proof {
        assert(starts@.map_values(|x: usize| x as int) == sstarts);
    }
    if starts.len() <= 1 {
        if slash.len() == 1 {
            let ghost sl = slash@.map_values(|p: Vec<char>| p@);
            let first = vec_subrange(&slash[0], 0, slash[0].len());
            assert(first@ =~= sl[0]);
            let mut one: Vec<Vec<char>> = Vec::new();
            one.push(first);
            assert(one@.map_values(|p: Vec<char>| p@) =~= seq![sl[0]]);
            return one;
        } else {
            let whole = vec_subrange(price, 0, price.len());
            assert(whole@ =~= price@);
            let mut one: Vec<Vec<char>> = Vec::new();
            one.push(whole);
            assert(one@.map_values(|p: Vec<char>| p@) =~= seq![price@]);
            return one;
        }
    }
    let segs = slice_segments(price, &starts);
    if segs.len() == 0 {
        let whole = vec_subrange(price, 0, price.len());
        assert(whole@ =~= price@);
        let mut one: Vec<Vec<char>> = Vec::new();
        one.push(whole);
        assert(one@.map_values(|p: Vec<char>| p@) =~= seq![price@]);
        one
    } else {
        segs
    }
}

fn slice_segments(price: &Vec<char>, starts: &Vec<usize>) -> (out: Vec<Vec<char>>)
    ensures
        out@.map_values(|p: Vec<char>| p@) == spec_slice_segments(
            price@,
            starts@.map_values(|x: usize| x as int),
        ),
{
    let ghost sstarts = starts@.map_values(|x: usize| x as int);
    let mut out: Vec<Vec<char>> = Vec::new();
    let mut k: usize = 0;
    proof {
        assert(sstarts.skip(0) =~= sstarts);
        assert(out@.map_values(|p: Vec<char>| p@) =~= Seq::<Seq<char>>::empty());
        assert(out@.map_values(|p: Vec<char>| p@) + spec_slice_segments(price@, sstarts)
            =~= spec_slice_segments(price@, sstarts));
    }
    while k < starts.len()
        invariant
            k <= starts@.len(),
            sstarts == starts@.map_values(|x: usize| x as int),
            spec_slice_segments(price@, sstarts) == out@.map_values(|p: Vec<char>| p@)
                + spec_slice_segments(price@, sstarts.skip(k as int)),
        decreases starts@.len() - k,
    {
        let ghost rest = sstarts.skip(k as int);
        proof {
            assert(rest[0] == sstarts[k as int]);
            assert(rest.drop_first() =~= sstarts.skip(k + 1));
            if rest.len() > 1 {
                assert(rest[1] == sstarts[k + 1]);
            }
        }
        let a: usize = if starts[k] < price.len() {
            starts[k]
        } else {
            price.len()
        };
        let b: usize = if k + 1 < starts.len() {
            if starts[k + 1] < price.len() {
                starts[k + 1]
            } else {
                price.len()
            }
        } else {
            price.len()
        };
        if a <= b {
            let slice = vec_subrange(price, a, b);
            let seg = normalize_chars(&slice);
            proof {
                assert(slice@ =~= price@.subrange(a as int, b as int));
            }
            if seg.len() > 0 {
                let ghost pre = out@;
                out.push(seg);
                proof {
                    let sv = norm_ws(
                        price@.subrange(
                            clamp_to(rest[0], price@.len() as int),
                            if rest.len() > 1 {
                                clamp_to(rest[1], price@.len() as int)
                            } else {
                                price@.len() as int
                            },
                        ),
                    );
                    assert(out@.map_values(|p: Vec<char>| p@) =~= pre.map_values(
                        |p: Vec<char>| p@,
                    ) + seq![sv]);
                    assert((pre.map_values(|p: Vec<char>| p@) + seq![sv]) + spec_slice_segments(
                        price@,
                        sstarts.skip(k + 1),
                    ) =~= pre.map_values(|p: Vec<char>| p@) + (seq![sv] + spec_slice_segments(
                        price@,
                        sstarts.skip(k + 1),
                    )));
                }
            }
        }
        k += 1;
    }
    proof {
        assert(sstarts.skip(sstarts.len() as int) =~= Seq::<int>::empty());
        assert(out@.map_values(|p: Vec<char>| p@) + Seq::<Seq<char>>::empty() =~= out@.map_values(
            |p: Vec<char>| p@,
        ));
    }
    out
}

pub open spec fn spec_student_labels() -> Seq<Seq<char>> {
    seq!["student"@, "op"@, "opisk"@, "opiskelija"@]
}

pub open spec fn spec_staff_labels() -> Seq<Seq<char>> {
    seq!["staff"@, "hk"@, "henkilokunta"@, "henkil\u{f6}kunta"@]
}

pub open spec fn spec_guest_labels() -> Seq<Seq<char>> {
    seq!["guest"@, "vieras"@]
}

/// Some label of `labels` occurs somewhere in `s` at a word boundary.
pub open spec fn has_word_label(s: Seq<char>, labels: Seq<Seq<char>>) -> bool {
    exists|k: int, i: int|
        0 <= k < labels.len() && #[trigger] matches_at(s, labels[k], i) && spec_word_boundary(
            s,
            i,
            labels[k].len() as int,
        )
}

fn check_word_label(s: &Vec<char>, labels: &Vec<Vec<char>>) -> (r: bool)
    ensures
        r == has_word_label(s@, labels@.map_values(|p: Vec<char>| p@)),
{
    let ghost slabels = labels@.map_values(|p: Vec<char>| p@);
    let mut k: usize = 0;
    while k < labels.len()
        invariant
            k <= labels@.len(),
            slabels == labels@.map_values(|p: Vec<char>| p@),
            forall|kk: int, i: int|
                0 <= kk < k ==> !(#[trigger] matches_at(s@, slabels[kk], i) && spec_word_boundary(
                    s@,
                    i,
                    slabels[kk].len() as int,
                )),
        decreases labels@.len() - k,
    {
        let lab = &labels[k];
        proof {
            assert(lab@ == slabels[k as int]);
        }
        let mut i: usize = 0;
        while i < s.len()
            invariant
                k < labels@.len(),
                i <= s@.len(),
                lab@ == slabels[k as int],
                slabels == labels@.map_values(|p: Vec<char>| p@),
                forall|j: int|
                    0 <= j < i ==> !(#[trigger] matches_at(s@, slabels[k as int], j)
                        && spec_word_boundary(s@, j, slabels[k as int].len() as int)),
            decreases s@.len() - i,
        {
            if check_match_at(s, lab, i) {
                proof {
                    assert(i + lab@.len() <= s@.len());
                    assert(s@.len() == s.len());
                }
                if check_word_boundary(s, i, lab.len()) {
                    proof {
                        assert(matches_at(s@, slabels[k as int], i as int) && spec_word_boundary(
                            s@,
                            i as int,
                            slabels[k as int].len() as int,
                        ));
                    }
                    return true;
                }
            }
            i += 1;
        }
        if check_match_at(s, lab, s.len()) {
            proof {
                assert(s@.len() == s.len());
            }
            if check_word_boundary(s, s.len(), 0) {
                proof {
                    assert(lab@.len() == 0);
                    assert(matches_at(s@, slabels[k as int], s@.len() as int)
                        && spec_word_boundary(s@, s@.len() as int, slabels[k as int].len() as int));
                }
                return true;
            }
        }
        proof {
            assert forall|j: int|
                !(#[trigger] matches_at(s@, slabels[k as int], j) && spec_word_boundary(
                    s@,
                    j,
                    slabels[k as int].len() as int,
                )) by {
                if matches_at(s@, slabels[k as int], j) {
                    assert(0 <= j && j + slabels[k as int].len() <= s@.len());
                    assert(j <= s@.len());
                }
            }
        }
        k += 1;
    }
    proof {
        assert(!has_word_label(s@, slabels));
    }
    false
}

/// Classify one price segment by the label word it contains; an unlabelled
/// segment counts as a guest price.
pub open spec fn spec_classify_segment(segment: Seq<char>) -> PriceGroup {
    let lower = lower_of(segment);
    if has_word_label(lower, spec_student_labels()) {
        PriceGroup::Student
    } else if has_word_label(lower, spec_staff_labels()) {
        PriceGroup::Staff
    } else {
        PriceGroup::Guest
    }
}

pub fn classify_compass_price_group(segment: &Vec<char>) -> (r: PriceGroup)
    ensures
        r == spec_classify_segment(segment@),
{
    let seg_str = chars_to_string(segment);
    let lower_str = to_lower(&seg_str);
    let lower = str_to_chars(&lower_str);
    let mut student: Vec<Vec<char>> = Vec::new();
    student.push(str_to_chars("student"));
    student.push(str_to_chars("op"));
    student.push(str_to_chars("opisk"));
    student.push(str_to_chars("opiskelija"));
    assert(student@.map_values(|p: Vec<char>| p@) =~= spec_student_labels());
    if check_word_label(&lower, &student) {
        return PriceGroup::Student;
    }
    let mut staff: Vec<Vec<char>> = Vec::new();
    staff.push(str_to_chars("staff"));
    staff.push(str_to_chars("hk"));
    staff.push(str_to_chars("henkilokunta"));
    staff.push(str_to_chars("henkil\u{f6}kunta"));
    assert(staff@.map_values(|p: Vec<char>| p@) =~= spec_staff_labels());
    if check_word_label(&lower, &staff) {
        return PriceGroup::Staff;
    }
    PriceGroup::Guest
}

/// The entries of one provider price string: the normalized input split
/// into segments (an empty price has none).
pub open spec fn spec_price_entries(price: Seq<char>) -> Seq<Seq<char>> {
    let normalized = norm_ws(price);
    if normalized.len() == 0 {
        Seq::empty()
    } else {
        spec_split_price_segments(normalized)
    }
}

pub fn compass_price_entries(price: &str) -> (out: Vec<Vec<char>>)
    ensures
        out@.map_values(|p: Vec<char>| p@) == spec_price_entries(price@),
{
    let chars = str_to_chars(price);
    let normalized = normalize_chars(&chars);
    if normalized.len() == 0 {
        let none: Vec<Vec<char>> = Vec::new();
        assert(none@.map_values(|p: Vec<char>| p@) =~= Seq::<Seq<char>>::empty());
        return none;
    }
    split_compass_price_segments(&normalized)
}

/// The value in euro cents of the first student-classified segment.
pub open spec fn spec_first_student_cents(segs: Seq<Seq<char>>) -> Option<u64>
    decreases segs.len(),
{
    if segs.len() == 0 {
        None
    } else if spec_classify_segment(segs[0]) == PriceGroup::Student {
        spec_price_cents(segs[0])
    } else {
        spec_first_student_cents(segs.drop_first())
    }
}

/// The student price of one provider price string, in euro cents.
pub fn student_price_cents(price: &str) -> (r: Option<u64>)
    ensures
        r == spec_first_student_cents(spec_price_entries(price@)),
{
    let entries = compass_price_entries(price);
    let ghost sentries = entries@.map_values(|p: Vec<char>| p@);
    let mut i: usize = 0;
    proof {
        assert(sentries.skip(0) =~= sentries);
    }
    while i < entries.len()
        invariant
            i <= entries@.len(),
            sentries == entries@.map_values(|p: Vec<char>| p@),
            sentries == spec_price_entries(price@),
            spec_first_student_cents(sentries) == spec_first_student_cents(
                sentries.skip(i as int),
            ),
        decreases entries@.len() - i,
    {
        proof {
            assert(sentries.skip(i as int)[0] == sentries[i as int]);
            assert(sentries.skip(i as int).drop_first() =~= sentries.skip(i + 1));
        }
        let g = classify_compass_price_group(&entries[i]);
        if match g {
            PriceGroup::Student => true,
            _ => false,
        } {
            return parse_price_cents(&entries[i]);
        }
        i += 1;
    }
    None
}

/// The segments whose price class the caller wants, joined with " / ".
pub open spec fn spec_included_segments(segs: Seq<Seq<char>>, groups: PriceGroups) -> Seq<
    Seq<char>,
>
    decreases segs.len(),
{
    if segs.len() == 0 {
        Seq::empty()
    } else {
        let keep = match spec_classify_segment(segs[0]) {
            PriceGroup::Student => groups.student,
            PriceGroup::Staff => groups.staff,
            PriceGroup::Guest => groups.guest,
        };
        let rest = spec_included_segments(segs.drop_first(), groups);
        if keep {
            seq![segs[0]] + rest
        } else {
            rest
        }
    }
}

pub open spec fn spec_price_text_for_groups(price: Seq<char>, groups: PriceGroups) -> Seq<char> {
    join_sep(spec_included_segments(spec_price_entries(price), groups), " / "@)
}

/// The provider price string filtered to the price classes the caller
/// wants shown.
pub fn price_text_for_groups(price: &str, groups: PriceGroups) -> (r: String)
    ensures
        r@ == spec_price_text_for_groups(price@, groups),
{
    let entries = compass_price_entries(price);
    let ghost sentries = entries@.map_values(|p: Vec<char>| p@);
    let mut parts: Vec<Vec<char>> = Vec::new();
    let mut i: usize = 0;
    proof {
        assert(sentries.skip(0) =~= sentries);
        assert(parts@.map_values(|p: Vec<char>| p@) =~= Seq::<Seq<char>>::empty());
        assert(parts@.map_values(|p: Vec<char>| p@) + spec_included_segments(sentries, groups)
            =~= spec_included_segments(sentries, groups));
    }
    while i < entries.len()
        invariant
            i <= entries@.len(),
            sentries == entries@.map_values(|p: Vec<char>| p@),
            spec_included_segments(sentries, groups) == parts@.map_values(|p: Vec<char>| p@)
                + spec_included_segments(sentries.skip(i as int), groups),
        decreases entries@.len() - i,
    {
        let ghost rest = sentries.skip(i as int);
        proof {
            assert(rest[0] == sentries[i as int]);
            assert(rest.drop_first() =~= sentries.skip(i + 1));
        }
        let g = classify_compass_price_group(&entries[i]);
        let keep = match g {
            PriceGroup::Student => groups.student,
            PriceGroup::Staff => groups.staff,
            PriceGroup::Guest => groups.guest,
        };
        if keep {
            let copy = vec_subrange(&entries[i], 0, entries[i].len());
            assert(copy@ =~= sentries[i as int]);
            let ghost pre = parts@;
            parts.push(copy);
            proof {
                assert(parts@.map_values(|p: Vec<char>| p@) =~= pre.map_values(|p: Vec<char>| p@)
                    + seq![sentries[i as int]]);
                assert((pre.map_values(|p: Vec<char>| p@) + seq![sentries[i as int]])
                    + spec_included_segments(sentries.skip(i + 1), groups) =~= pre.map_values(
                    |p: Vec<char>| p@,
                ) + (seq![sentries[i as int]] + spec_included_segments(
                    sentries.skip(i + 1),
                    groups,
                )));
            }
        }
        i += 1;
    }
    proof {
        assert(sentries.skip(sentries.len() as int) =~= Seq::<Seq<char>>::empty());
        assert(parts@.map_values(|p: Vec<char>| p@) + Seq::<Seq<char>>::empty() =~= parts@.map_values(
            |p: Vec<char>| p@,
        ));
    }
    let sep = str_to_chars(" / ");
    let joined = join_with(&parts, &sep);
    chars_to_string(&joined)
}

} // verus!

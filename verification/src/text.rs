use vstd::prelude::*;

verus! {

/// The Unicode white-space characters, as Rust's `char::is_whitespace`
/// recognises them.
pub open spec fn is_space(c: char) -> bool {
    ||| c == ' '
    ||| c == '\t'
    ||| c == '\n'
    ||| c == '\r'
    ||| c == '\u{0b}'
    ||| c == '\u{0c}'
    ||| c == '\u{85}'
    ||| c == '\u{a0}'
    ||| c == '\u{1680}'
    ||| (c as u32 >= 0x2000 && c as u32 <= 0x200a)
    ||| c == '\u{2028}'
    ||| c == '\u{2029}'
    ||| c == '\u{202f}'
    ||| c == '\u{205f}'
    ||| c == '\u{3000}'
}

pub fn is_space_char(c: char) -> (r: bool)
    ensures
        r == is_space(c),
{
    c == ' ' || c == '\t' || c == '\n' || c == '\r' || c == '\u{0b}' || c == '\u{0c}'
        || c == '\u{85}' || c == '\u{a0}' || c == '\u{1680}'
        || (c as u32 >= 0x2000 && c as u32 <= 0x200a) || c == '\u{2028}' || c == '\u{2029}'
        || c == '\u{202f}' || c == '\u{205f}' || c == '\u{3000}'
}

/// Every run of white space becomes a single ' '; `last_space` says whether
/// the character just before `s` was white space.
pub open spec fn collapse_ws(s: Seq<char>, last_space: bool) -> Seq<char>
    decreases s.len(),
{
    if s.len() == 0 {
        Seq::empty()
    } else if is_space(s[0]) {
        if last_space {
            collapse_ws(s.drop_first(), true)
        } else {
            seq![' '] + collapse_ws(s.drop_first(), true)
        }
    } else {
        seq![s[0]] + collapse_ws(s.drop_first(), false)
    }
}

pub open spec fn trim_start_ws(s: Seq<char>) -> Seq<char>
    decreases s.len(),
{
    if s.len() > 0 && is_space(s[0]) {
        trim_start_ws(s.drop_first())
    } else {
        s
    }
}

pub open spec fn trim_end_ws(s: Seq<char>) -> Seq<char>
    decreases s.len(),
{
    if s.len() > 0 && is_space(s[s.len() - 1]) {
        trim_end_ws(s.drop_last())
    } else {
        s
    }
}

pub open spec fn trim_ws(s: Seq<char>) -> Seq<char> {
    trim_start_ws(trim_end_ws(s))
}

/// White-space normalization: collapse every run of white space to one ' ',
/// then trim both ends.
pub open spec fn norm_ws(s: Seq<char>) -> Seq<char> {
    trim_ws(collapse_ws(s, false))
}

/// Every white-space character in `s` is a plain ' '.
pub open spec fn spaces_are_single(s: Seq<char>) -> bool {
    forall|i: int| 0 <= i < s.len() && is_space(#[trigger] s[i]) ==> s[i] == ' '
}

/// No two adjacent white-space characters in `s`.
pub open spec fn no_adjacent_spaces(s: Seq<char>) -> bool {
    forall|i: int| 0 <= i && i + 1 < s.len() ==> !(is_space(#[trigger] s[i]) && is_space(s[i + 1]))
}

proof fn lemma_collapse_props(s: Seq<char>, b: bool)
    ensures
        spaces_are_single(collapse_ws(s, b)),
        no_adjacent_spaces(collapse_ws(s, b)),
        b && collapse_ws(s, b).len() > 0 ==> !is_space(collapse_ws(s, b)[0]),
    decreases s.len(),
{
    if s.len() == 0 {
    } else {
        let rest = s.drop_first();
        if is_space(s[0]) {
            lemma_collapse_props(rest, true);
            if !b {
                let r = collapse_ws(s, b);
                let rr = collapse_ws(rest, true);
                assert(r =~= seq![' '] + rr);
                assert forall|i: int| 0 <= i && i + 1 < r.len() implies !(is_space(#[trigger] r[i])
                    && is_space(r[i + 1])) by {
                    if i == 0 {
                        assert(r[1] == rr[0]);
                    } else {
                        assert(r[i] == rr[i - 1] && r[i + 1] == rr[i]);
                    }
                }
            }
        } else {
            lemma_collapse_props(rest, false);
            let r = collapse_ws(s, b);
            let rr = collapse_ws(rest, false);
            assert(r =~= seq![s[0]] + rr);
            assert forall|i: int| 0 <= i && i + 1 < r.len() implies !(is_space(#[trigger] r[i])
                && is_space(r[i + 1])) by {
                if i == 0 {
                    if rr.len() > 0 && is_space(rr[0]) {
                        // a space directly after a non-space is allowed
                        assert(!is_space(r[0]));
                    }
                } else {
                    assert(r[i] == rr[i - 1] && r[i + 1] == rr[i]);
                }
            }
        }
    }
}

proof fn lemma_collapse_identity(s: Seq<char>, b: bool)
    requires
        spaces_are_single(s),
        no_adjacent_spaces(s),
        b && s.len() > 0 ==> !is_space(s[0]),
    ensures
        collapse_ws(s, b) == s,
    decreases s.len(),
{
    if s.len() == 0 {
        assert(collapse_ws(s, b) =~= s);
    } else {
        let rest = s.drop_first();
        assert forall|i: int| 0 <= i < rest.len() && is_space(#[trigger] rest[i]) implies rest[i]
            == ' ' by {
            assert(rest[i] == s[i + 1]);
        }
        assert forall|i: int| 0 <= i && i + 1 < rest.len() implies !(is_space(#[trigger] rest[i])
            && is_space(rest[i + 1])) by {
            assert(rest[i] == s[i + 1] && rest[i + 1] == s[i + 2]);
        }
        if is_space(s[0]) {
            assert(s[0] == ' ');
            if rest.len() > 0 {
                assert(!is_space(rest[0])) by {
                    assert(rest[0] == s[1]);
                }
            }
            lemma_collapse_identity(rest, true);
            assert(collapse_ws(s, b) =~= seq![' '] + rest);
            assert(seq![' '] + rest =~= s);
        } else {
            lemma_collapse_identity(rest, false);
            assert(collapse_ws(s, b) =~= seq![s[0]] + rest);
            assert(seq![s[0]] + rest =~= s);
        }
    }
}

proof fn lemma_trim_props(s: Seq<char>)
    requires
        spaces_are_single(s),
        no_adjacent_spaces(s),
    ensures
        spaces_are_single(trim_ws(s)),
        no_adjacent_spaces(trim_ws(s)),
        trim_ws(s).len() > 0 ==> !is_space(trim_ws(s)[0]) && !is_space(
            trim_ws(s)[trim_ws(s).len() - 1],
        ),
{
    let e = trim_end_ws(s);
    lemma_trim_end_is_prefix(s);
    let t = trim_start_ws(e);
    lemma_trim_start_is_suffix(e);
    let d = e.len() - t.len();
    assert forall|i: int| 0 <= i < t.len() implies t[i] == s[d + i] by {
        assert(t[i] == e[d + i]);
    }
    assert forall|i: int| 0 <= i < t.len() && is_space(#[trigger] t[i]) implies t[i] == ' ' by {
        assert(t[i] == s[d + i]);
        assert(is_space(s[d + i]));
    }
    assert forall|i: int| 0 <= i && i + 1 < t.len() implies !(is_space(#[trigger] t[i]) && is_space(
        t[i + 1],
    )) by {
        assert(t[i] == s[d + i] && t[i + 1] == s[d + i + 1]);
    }
    if t.len() > 0 {
        assert(t[t.len() - 1] == e[e.len() - 1]);
    }
}

proof fn lemma_trim_end_is_prefix(s: Seq<char>)
    ensures
        trim_end_ws(s) =~= s.take(trim_end_ws(s).len() as int),
        trim_end_ws(s).len() <= s.len(),
        trim_end_ws(s).len() > 0 ==> !is_space(trim_end_ws(s)[trim_end_ws(s).len() - 1]),
    decreases s.len(),
{
    if s.len() > 0 && is_space(s[s.len() - 1]) {
        lemma_trim_end_is_prefix(s.drop_last());
        assert(s.drop_last().take(trim_end_ws(s).len() as int) =~= s.take(
            trim_end_ws(s).len() as int,
        ));
    }
}

proof fn lemma_trim_start_is_suffix(s: Seq<char>)
    ensures
        trim_start_ws(s) =~= s.skip(s.len() - trim_start_ws(s).len()),
        trim_start_ws(s).len() <= s.len(),
        trim_start_ws(s).len() > 0 ==> !is_space(trim_start_ws(s)[0]),
    decreases s.len(),
{
    if s.len() > 0 && is_space(s[0]) {
        lemma_trim_start_is_suffix(s.drop_first());
        assert(s.drop_first().skip(s.len() - 1 - trim_start_ws(s).len()) =~= s.skip(
            s.len() - trim_start_ws(s).len(),
        ));
    }
}

/// Law: white-space normalization is idempotent: normalizing an already
/// normalized string changes nothing.
pub proof fn lemma_norm_ws_idempotent(s: Seq<char>)
    ensures
        norm_ws(norm_ws(s)) == norm_ws(s),
{
    let c = collapse_ws(s, false);
    lemma_collapse_props(s, false);
    lemma_trim_props(c);
    let t = norm_ws(s);
    lemma_collapse_identity(t, false);
    if t.len() > 0 {
        assert(!is_space(t[t.len() - 1]));
    }
    assert(trim_end_ws(t) == t);
    assert(trim_start_ws(t) == t);
}

pub fn str_to_chars(s: &str) -> (v: Vec<char>)
    ensures
        v@ == s@,
{
    let n = s.unicode_len();
    let mut v: Vec<char> = Vec::new();
    let mut i: usize = 0;
    while i < n
        invariant
            i <= n,
            n == s@.len(),
            v@ == s@.take(i as int),
        decreases n - i,
    {
        v.push(s.get_char(i));
        assert(s@.take(i as int).push(s@[i as int]) =~= s@.take(i + 1));
        i += 1;
    }
    assert(s@.take(n as int) =~= s@);
    v
}

/// Relies on `core::iter::Iterator::collect` for `String`: collecting the
/// characters of a slice yields the string with exactly those characters.
#[verifier::external_body]
pub fn chars_to_string(v: &Vec<char>) -> (r: String)
    ensures
        r@ == v@,
{
    v.iter().collect()
}

pub fn vec_eq_str(v: &Vec<char>, s: &str) -> (r: bool)
    ensures
        r == (v@ == s@),
{
    let n = s.unicode_len();
    if v.len() != n {
        assert(v@ != s@);
        return false;
    }
    let mut i: usize = 0;
    while i < n
        invariant
            i <= n,
            n == s@.len(),
            v@.len() == n,
            forall|j: int| 0 <= j < i ==> v@[j] == s@[j],
        decreases n - i,
    {
        if v[i] != s.get_char(i) {
            assert(v@ != s@);
            return false;
        }
        i += 1;
    }
    assert(v@ =~= s@);
    true
}

pub fn str_eq(a: &str, b: &str) -> (r: bool)
    ensures
        r == (a@ == b@),
{
    let v = str_to_chars(a);
    vec_eq_str(&v, b)
}

fn collapse_chars(v: &Vec<char>) -> (out: Vec<char>)
    ensures
        out@ == collapse_ws(v@, false),
{
    let mut out: Vec<char> = Vec::new();
    let mut last_space = false;
    let mut i: usize = 0;
    proof {
        assert(v@.skip(0) =~= v@);
        assert(out@ + collapse_ws(v@, false) =~= collapse_ws(v@, false));
    }
    while i < v.len()
        invariant
            i <= v@.len(),
            collapse_ws(v@, false) == out@ + collapse_ws(v@.skip(i as int), last_space),
        decreases v@.len() - i,
    {
        let ghost rest = v@.skip(i as int);
        assert(rest[0] == v@[i as int]);
        assert(rest.drop_first() =~= v@.skip(i + 1));
        let c = v[i];
        if is_space_char(c) {
            if !last_space {
                out.push(' ');
                last_space = true;
            }
        } else {
            out.push(c);
            last_space = false;
        }
        i += 1;
    }
    assert(v@.skip(v@.len() as int) =~= Seq::<char>::empty());
    assert(out@ + Seq::<char>::empty() =~= out@);
    out
}

proof fn lemma_trim_end_take(s: Seq<char>, end: int)
    requires
        0 <= end <= s.len(),
        forall|j: int| end <= j < s.len() ==> is_space(#[trigger] s[j]),
        end > 0 ==> !is_space(s[end - 1]),
    ensures
        trim_end_ws(s) == s.take(end),
    decreases s.len(),
{
    if s.len() == 0 {
        assert(s.take(end) =~= s);
    } else if end == s.len() {
        assert(s.take(end) =~= s);
    } else {
        assert(is_space(s[s.len() - 1]));
        lemma_trim_end_take(s.drop_last(), end);
        assert(s.drop_last().take(end) =~= s.take(end));
    }
}

proof fn lemma_trim_start_skip(s: Seq<char>, start: int)
    requires
        0 <= start <= s.len(),
        forall|j: int| 0 <= j < start ==> is_space(#[trigger] s[j]),
        start < s.len() ==> !is_space(s[start]),
    ensures
        trim_start_ws(s) == s.skip(start),
    decreases start,
{
    if start == 0 {
        assert(s.skip(0) =~= s);
        if s.len() > 0 {
            assert(!is_space(s[0]));
        }
    } else {
        assert(is_space(s[0]));
        lemma_trim_start_skip(s.drop_first(), start - 1);
        assert(s.drop_first().skip(start - 1) =~= s.skip(start));
    }
}

pub fn trim_chars(v: &Vec<char>) -> (out: Vec<char>)
    ensures
        out@ == trim_ws(v@),
{
    let mut end: usize = v.len();
    while end > 0 && is_space_char(v[end - 1])
        invariant
            end <= v@.len(),
            forall|j: int| end <= j < v@.len() ==> is_space(#[trigger] v@[j]),
        decreases end,
    {
        end -= 1;
    }
    proof {
        lemma_trim_end_take(v@, end as int);
    }
    let mut start: usize = 0;
    while start < end && is_space_char(v[start])
        invariant
            start <= end <= v@.len(),
            forall|j: int| 0 <= j < start ==> is_space(#[trigger] v@[j]),
        decreases end - start,
    {
        start += 1;
    }
    proof {
        let t = v@.take(end as int);
        if start < end {
            assert(!is_space(t[start as int]));
        }
        lemma_trim_start_skip(t, start as int);
    }
    let mut out: Vec<char> = Vec::new();
    let mut i: usize = start;
    while i < end
        invariant
            start <= i <= end <= v@.len(),
            out@ == v@.take(end as int).skip(start as int).take(i - start),
        decreases end - i,
    {
        out.push(v[i]);
        assert(out@ =~= v@.take(end as int).skip(start as int).take(i + 1 - start));
        i += 1;
    }
    assert(v@.take(end as int).skip(start as int).take(end - start) =~= v@.take(end as int).skip(
        start as int,
    ));
    out
}

/// ASCII upper-casing of one character; other characters are unchanged.
pub open spec fn ascii_upper(c: char) -> char {
    if 'a' <= c && c <= 'z' {
        ((c as u32 - 32) as u8) as char
    } else {
        c
    }
}

pub open spec fn ascii_upper_seq(s: Seq<char>) -> Seq<char> {
    s.map_values(|c: char| ascii_upper(c))
}

pub open spec fn is_ascii_upper(c: char) -> bool {
    'A' <= c && c <= 'Z'
}

pub open spec fn is_ascii_digit(c: char) -> bool {
    '0' <= c && c <= '9'
}

pub open spec fn is_ascii_letter(c: char) -> bool {
    ('A' <= c && c <= 'Z') || ('a' <= c && c <= 'z')
}

pub fn ascii_upper_char(c: char) -> (r: char)
    ensures
        r == ascii_upper(c),
{
    if 'a' <= c && c <= 'z' {
        (c as u32 as u8 - 32) as char
    } else {
        c
    }
}

pub fn ascii_upper_chars(v: &Vec<char>) -> (out: Vec<char>)
    ensures
        out@ == ascii_upper_seq(v@),
{
    let mut out: Vec<char> = Vec::new();
    let mut i: usize = 0;
    while i < v.len()
        invariant
            i <= v@.len(),
            out@ == v@.take(i as int).map_values(|c: char| ascii_upper(c)),
        decreases v@.len() - i,
    {
        out.push(ascii_upper_char(v[i]));
        assert(out@ =~= v@.take(i + 1).map_values(|c: char| ascii_upper(c)));
        i += 1;
    }
    assert(v@.take(v@.len() as int) =~= v@);
    out
}

/// ASCII lower-casing of one character; other characters are unchanged.
pub open spec fn ascii_lower(c: char) -> char {
    if 'A' <= c && c <= 'Z' {
        ((c as u32 + 32) as u8) as char
    } else {
        c
    }
}

pub open spec fn ascii_lower_seq(s: Seq<char>) -> Seq<char> {
    s.map_values(|c: char| ascii_lower(c))
}

pub fn ascii_lower_chars(v: &Vec<char>) -> (out: Vec<char>)
    ensures
        out@ == ascii_lower_seq(v@),
{
    let mut out: Vec<char> = Vec::new();
    let mut i: usize = 0;
    while i < v.len()
        invariant
            i <= v@.len(),
            out@ == v@.take(i as int).map_values(|c: char| ascii_lower(c)),
        decreases v@.len() - i,
    {
        let c = v[i];
        if 'A' <= c && c <= 'Z' {
            out.push((c as u32 as u8 + 32) as char);
        } else {
            out.push(c);
        }
        assert(out@ =~= v@.take(i + 1).map_values(|c: char| ascii_lower(c)));
        i += 1;
    }
    assert(v@.take(v@.len() as int) =~= v@);
    out
}

/// `pat` occurs somewhere in `s`.
pub open spec fn contains_sub(s: Seq<char>, pat: Seq<char>) -> bool {
    exists|i: int| #[trigger] matches_at(s, pat, i)
}

pub fn check_contains_sub(v: &Vec<char>, pat: &Vec<char>) -> (r: bool)
    ensures
        r == contains_sub(v@, pat@),
{
    proof {
        assert(v@.len() == v.len());
    }
    let mut i: usize = 0;
    while i < v.len()
        invariant
            i <= v@.len(),
            v@.len() <= usize::MAX,
            forall|j: int| 0 <= j < i ==> !matches_at(v@, pat@, j),
        decreases v@.len() - i,
    {
        if check_match_at(v, pat, i) {
            return true;
        }
        i += 1;
    }
    if check_match_at(v, pat, v.len()) {
        return true;
    }
    proof {
        assert forall|j: int| !(#[trigger] matches_at(v@, pat@, j)) by {
            if matches_at(v@, pat@, j) {
                assert(0 <= j && j + pat@.len() <= v@.len());
            }
        }
    }
    false
}

pub open spec fn trim_end_set(s: Seq<char>, set: Seq<char>) -> Seq<char>
    decreases s.len(),
{
    if s.len() > 0 && set.contains(s[s.len() - 1]) {
        trim_end_set(s.drop_last(), set)
    } else {
        s
    }
}

pub open spec fn trim_start_set(s: Seq<char>, set: Seq<char>) -> Seq<char>
    decreases s.len(),
{
    if s.len() > 0 && set.contains(s[0]) {
        trim_start_set(s.drop_first(), set)
    } else {
        s
    }
}

pub fn char_in(set: &Vec<char>, c: char) -> (r: bool)
    ensures
        r == set@.contains(c),
{
    let mut i: usize = 0;
    while i < set.len()
        invariant
            i <= set@.len(),
            forall|j: int| 0 <= j < i ==> set@[j] != c,
        decreases set@.len() - i,
    {
        if set[i] == c {
            return true;
        }
        i += 1;
    }
    false
}

pub fn vec_subrange(v: &Vec<char>, from: usize, to: usize) -> (out: Vec<char>)
    requires
        from <= to <= v@.len(),
    ensures
        out@ == v@.subrange(from as int, to as int),
{
    let mut out: Vec<char> = Vec::new();
    let mut i: usize = from;
    while i < to
        invariant
            from <= i <= to <= v@.len(),
            out@ == v@.subrange(from as int, i as int),
        decreases to - i,
    {
        out.push(v[i]);
        assert(out@ =~= v@.subrange(from as int, i + 1));
        i += 1;
    }
    out
}

proof fn lemma_trim_end_set_take(s: Seq<char>, set: Seq<char>, end: int)
    requires
        0 <= end <= s.len(),
        forall|j: int| end <= j < s.len() ==> set.contains(#[trigger] s[j]),
        end > 0 ==> !set.contains(s[end - 1]),
    ensures
        trim_end_set(s, set) == s.take(end),
    decreases s.len(),
{
    if s.len() == 0 || end == s.len() {
        assert(s.take(end) =~= s);
    } else {
        lemma_trim_end_set_take(s.drop_last(), set, end);
        assert(s.drop_last().take(end) =~= s.take(end));
    }
}

proof fn lemma_trim_start_set_skip(s: Seq<char>, set: Seq<char>, start: int)
    requires
        0 <= start <= s.len(),
        forall|j: int| 0 <= j < start ==> set.contains(#[trigger] s[j]),
        start < s.len() ==> !set.contains(s[start]),
    ensures
        trim_start_set(s, set) == s.skip(start),
    decreases start,
{
    if start == 0 {
        assert(s.skip(0) =~= s);
    } else {
        lemma_trim_start_set_skip(s.drop_first(), set, start - 1);
        assert(s.drop_first().skip(start - 1) =~= s.skip(start));
    }
}

pub fn trim_end_any(v: &Vec<char>, set: &Vec<char>) -> (out: Vec<char>)
    ensures
        out@ == trim_end_set(v@, set@),
{
    let mut end: usize = v.len();
    while end > 0 && char_in(set, v[end - 1])
        invariant
            end <= v@.len(),
            forall|j: int| end <= j < v@.len() ==> set@.contains(#[trigger] v@[j]),
        decreases end,
    {
        end -= 1;
    }
    proof {
        lemma_trim_end_set_take(v@, set@, end as int);
        assert(v@.subrange(0, end as int) =~= v@.take(end as int));
    }
    vec_subrange(v, 0, end)
}

pub fn trim_any(v: &Vec<char>, set: &Vec<char>) -> (out: Vec<char>)
    ensures
        out@ == trim_start_set(trim_end_set(v@, set@), set@),
{
    let e = trim_end_any(v, set);
    let mut start: usize = 0;
    while start < e.len() && char_in(set, e[start])
        invariant
            start <= e@.len(),
            forall|j: int| 0 <= j < start ==> set@.contains(#[trigger] e@[j]),
        decreases e@.len() - start,
    {
        start += 1;
    }
    proof {
        lemma_trim_start_set_skip(e@, set@, start as int);
        assert(e@.subrange(start as int, e@.len() as int) =~= e@.skip(start as int));
    }
    vec_subrange(&e, start, e.len())
}

/// Index of the first occurrence of `sep` in `s`, or -1.
pub open spec fn find_char(s: Seq<char>, sep: char) -> int
    decreases s.len(),
{
    if s.len() == 0 {
        -1
    } else if s[0] == sep {
        0
    } else {
        let r = find_char(s.drop_first(), sep);
        if r < 0 {
            -1
        } else {
            r + 1
        }
    }
}

pub proof fn lemma_find_char_props(s: Seq<char>, sep: char)
    ensures
        find_char(s, sep) >= 0 ==> find_char(s, sep) < s.len() && s[find_char(s, sep)] == sep
            && forall|j: int| 0 <= j < find_char(s, sep) ==> s[j] != sep,
        find_char(s, sep) < 0 ==> forall|j: int| 0 <= j < s.len() ==> s[j] != sep,
    decreases s.len(),
{
    if s.len() > 0 && s[0] != sep {
        let rest = s.drop_first();
        lemma_find_char_props(rest, sep);
        let r = find_char(rest, sep);
        if r >= 0 {
            assert(s[r + 1] == rest[r]);
            assert forall|j: int| 0 <= j < r + 1 implies s[j] != sep by {
                if j > 0 {
                    assert(s[j] == rest[j - 1]);
                }
            }
        } else {
            assert forall|j: int| 0 <= j < s.len() implies s[j] != sep by {
                if j > 0 {
                    assert(s[j] == rest[j - 1]);
                }
            }
        }
    }
}

pub fn find_char_from(v: &Vec<char>, from: usize, sep: char) -> (r: Option<usize>)
    requires
        from <= v@.len(),
    ensures
        match r {
            Some(i) => from <= i < v@.len() && find_char(v@.skip(from as int), sep) == i - from,
            None => find_char(v@.skip(from as int), sep) < 0,
        },
{
    let mut i: usize = from;
    while i < v.len()
        invariant
            from <= i <= v@.len(),
            forall|j: int| from <= j < i ==> v@[j] != sep,
        decreases v@.len() - i,
    {
        if v[i] == sep {
            proof {
                lemma_find_char_witness(v@.skip(from as int), sep, i - from);
            }
            return Some(i);
        }
        i += 1;
    }
    proof {
        lemma_find_char_props(v@.skip(from as int), sep);
        if find_char(v@.skip(from as int), sep) >= 0 {
            let k = find_char(v@.skip(from as int), sep);
            assert(v@[from + k] == sep);
        }
    }
    None
}

proof fn lemma_find_char_witness(s: Seq<char>, sep: char, i: int)
    requires
        0 <= i < s.len(),
        s[i] == sep,
        forall|j: int| 0 <= j < i ==> s[j] != sep,
    ensures
        find_char(s, sep) == i,
    decreases i,
{
    if i > 0 {
        lemma_find_char_witness(s.drop_first(), sep, i - 1);
    }
}

/// The parts of `s` between occurrences of `sep` (empty parts included).
pub open spec fn split_char(s: Seq<char>, sep: char) -> Seq<Seq<char>>
    decreases s.len(),
    via split_char_dec
{
    let f = find_char(s, sep);
    if f < 0 {
        seq![s]
    } else {
        seq![s.take(f)] + split_char(s.skip(f + 1), sep)
    }
}

#[via_fn]
proof fn split_char_dec(s: Seq<char>, sep: char) {
    lemma_find_char_props(s, sep);
}

pub fn split_char_vec(v: &Vec<char>, sep: char) -> (out: Vec<Vec<char>>)
    ensures
        out@.map_values(|p: Vec<char>| p@) == split_char(v@, sep),
    decreases v@.len(),
{
    let mut out: Vec<Vec<char>> = Vec::new();
    let mut from: usize = 0;
    let n = v.len();
    proof {
        assert(v@.skip(0) =~= v@);
        assert(out@.map_values(|p: Vec<char>| p@) + split_char(v@, sep) =~= split_char(v@, sep));
    }
    loop
        invariant
            from <= v@.len(),
            n == v@.len(),
            split_char(v@, sep) == out@.map_values(|p: Vec<char>| p@) + split_char(
                v@.skip(from as int),
                sep,
            ),
        decreases v@.len() - from,
    {
        let ghost rest = v@.skip(from as int);
        match find_char_from(v, from, sep) {
            Some(i) => {
                let part = vec_subrange(v, from, i);
                proof {
                    lemma_find_char_props(rest, sep);
                    assert(part@ =~= rest.take(i - from));
                    assert(v@.skip(i + 1) =~= rest.skip(i - from + 1));
                }
                out.push(part);
                proof {
                    assert(out@.map_values(|p: Vec<char>| p@) =~= out@.map_values(
                        |p: Vec<char>| p@,
                    ).take(out@.len() - 1) + seq![rest.take(i - from)]);
                    assert(split_char(v@, sep) =~= out@.map_values(|p: Vec<char>| p@)
                        + split_char(v@.skip(i + 1), sep));
                }
                from = i + 1;
            },
            None => {
                let part = vec_subrange(v, from, v.len());
                proof {
                    assert(part@ =~= rest);
                    assert(split_char(rest, sep) =~= seq![rest]);
                }
                out.push(part);
                proof {
                    assert(out@.map_values(|p: Vec<char>| p@) =~= out@.map_values(
                        |p: Vec<char>| p@,
                    ).take(out@.len() - 1) + seq![rest]);
                }
                return out;
            },
        }
    }
}

/// `parts` joined with the separator `sep` between consecutive parts.
pub open spec fn join_sep(parts: Seq<Seq<char>>, sep: Seq<char>) -> Seq<char>
    decreases parts.len(),
{
    if parts.len() == 0 {
        Seq::empty()
    } else if parts.len() == 1 {
        parts[0]
    } else {
        parts[0] + sep + join_sep(parts.drop_first(), sep)
    }
}

proof fn lemma_join_push(parts: Seq<Seq<char>>, sep: Seq<char>, x: Seq<char>)
    ensures
        join_sep(parts.push(x), sep) == if parts.len() == 0 {
            x
        } else {
            join_sep(parts, sep) + sep + x
        },
    decreases parts.len(),
{
    let p = parts.push(x);
    if parts.len() == 0 {
        assert(p.len() == 1);
        assert(join_sep(p, sep) == p[0]);
        assert(p[0] == x);
    } else if parts.len() == 1 {
        assert(p.drop_first() =~= seq![x]);
        assert(join_sep(seq![x], sep) == x);
        assert(join_sep(parts, sep) == parts[0]);
        assert(join_sep(p, sep) == p[0] + sep + join_sep(p.drop_first(), sep));
        assert(p[0] == parts[0]);
    } else {
        assert(p.drop_first() =~= parts.drop_first().push(x));
        lemma_join_push(parts.drop_first(), sep, x);
        assert(join_sep(p, sep) == p[0] + sep + join_sep(parts.drop_first().push(x), sep));
        assert(p[0] == parts[0]);
        assert(parts[0] + sep + (join_sep(parts.drop_first(), sep) + sep + x) =~= (parts[0] + sep
            + join_sep(parts.drop_first(), sep)) + sep + x);
    }
}

pub fn push_all(out: &mut Vec<char>, part: &Vec<char>)
    ensures
        final(out)@ == old(out)@ + part@,
{
    let mut k: usize = 0;
    while k < part.len()
        invariant
            k <= part@.len(),
            out@ == old(out)@ + part@.take(k as int),
        decreases part@.len() - k,
    {
        out.push(part[k]);
        assert(out@ =~= old(out)@ + part@.take(k + 1));
        k += 1;
    }
    assert(out@ =~= old(out)@ + part@);
}

pub fn join_with(parts: &Vec<Vec<char>>, sep: &Vec<char>) -> (out: Vec<char>)
    ensures
        out@ == join_sep(parts@.map_values(|p: Vec<char>| p@), sep@),
{
    let ghost sparts = parts@.map_values(|p: Vec<char>| p@);
    let mut out: Vec<char> = Vec::new();
    let mut i: usize = 0;
    while i < parts.len()
        invariant
            i <= parts@.len(),
            sparts == parts@.map_values(|p: Vec<char>| p@),
            out@ == join_sep(sparts.take(i as int), sep@),
        decreases parts@.len() - i,
    {
        if i > 0 {
            push_all(&mut out, sep);
        }
        push_all(&mut out, &parts[i]);
        proof {
            assert(sparts.take(i + 1) =~= sparts.take(i as int).push(sparts[i as int]));
            lemma_join_push(sparts.take(i as int), sep@, sparts[i as int]);
            assert(parts@[i as int]@ == sparts[i as int]);
        }
        i += 1;
    }
    assert(sparts.take(parts@.len() as int) =~= sparts);
    out
}

pub open spec fn digit_val(c: char) -> int {
    c as u32 - 48
}

pub open spec fn all_digits(s: Seq<char>) -> bool {
    forall|i: int| 0 <= i < s.len() ==> is_ascii_digit(#[trigger] s[i])
}

/// The value of the decimal digit string `s`, folded left onto `acc`.
pub open spec fn fold_digits(s: Seq<char>, acc: int) -> int
    decreases s.len(),
{
    if s.len() == 0 {
        acc
    } else {
        fold_digits(s.drop_first(), acc * 10 + digit_val(s[0]))
    }
}

pub proof fn lemma_fold_push_pub(s: Seq<char>, c: char, acc: int)
    ensures
        fold_digits(s.push(c), acc) == fold_digits(s, acc) * 10 + digit_val(c),
    decreases s.len(),
{
    if s.len() == 0 {
        assert(s.push(c).drop_first() =~= Seq::<char>::empty());
        assert(s.push(c)[0] == c);
        assert(fold_digits(s.push(c), acc) == fold_digits(
            Seq::<char>::empty(),
            acc * 10 + digit_val(c),
        ));
        assert(fold_digits(Seq::<char>::empty(), acc * 10 + digit_val(c)) == acc * 10 + digit_val(
            c,
        ));
    } else {
        assert(s.push(c).drop_first() =~= s.drop_first().push(c));
        assert(s.push(c)[0] == s[0]);
        assert(fold_digits(s.push(c), acc) == fold_digits(
            s.drop_first().push(c),
            acc * 10 + digit_val(s[0]),
        ));
        lemma_fold_push_pub(s.drop_first(), c, acc * 10 + digit_val(s[0]));
        assert(fold_digits(s, acc) == fold_digits(s.drop_first(), acc * 10 + digit_val(s[0])));
    }
}

pub proof fn lemma_fold_ge(s: Seq<char>, acc: int)
    requires
        all_digits(s),
        acc >= 0,
    ensures
        fold_digits(s, acc) >= acc,
    decreases s.len(),
{
    if s.len() > 0 {
        assert(is_ascii_digit(s[0]));
        assert forall|i: int| 0 <= i < s.drop_first().len() implies is_ascii_digit(
            #[trigger] s.drop_first()[i],
        ) by {
            assert(s.drop_first()[i] == s[i + 1]);
        }
        lemma_fold_ge(s.drop_first(), acc * 10 + digit_val(s[0]));
    }
}

proof fn lemma_fold_split(s: Seq<char>, k: int, acc: int)
    requires
        0 <= k <= s.len(),
    ensures
        fold_digits(s, acc) == fold_digits(s.skip(k), fold_digits(s.take(k), acc)),
    decreases k,
{
    if k == 0 {
        assert(s.skip(0) =~= s);
        assert(s.take(0) =~= Seq::<char>::empty());
    } else {
        assert(s.take(k) =~= s.take(k - 1).push(s[k - 1]));
        lemma_fold_push_pub(s.take(k - 1), s[k - 1], acc);
        lemma_fold_split(s, k - 1, acc);
        assert(s.skip(k - 1).drop_first() =~= s.skip(k));
        assert(s.skip(k - 1)[0] == s[k - 1]);
    }
}

/// The value `str::parse::<u32>` would return: an optional leading '+',
/// then one or more decimal digits, the value fitting in a `u32`.
pub open spec fn parse_u32_spec(s: Seq<char>) -> Option<u32> {
    let body = if s.len() > 0 && s[0] == '+' {
        s.drop_first()
    } else {
        s
    };
    if body.len() > 0 && all_digits(body) && fold_digits(body, 0) <= u32::MAX {
        Some(fold_digits(body, 0) as u32)
    } else {
        None
    }
}

pub fn parse_u32_chars(v: &Vec<char>) -> (r: Option<u32>)
    ensures
        r == parse_u32_spec(v@),
{
    let start: usize = if v.len() > 0 && v[0] == '+' {
        1
    } else {
        0
    };
    let ghost body = if v@.len() > 0 && v@[0] == '+' {
        v@.drop_first()
    } else {
        v@
    };
    proof {
        assert(body =~= v@.skip(start as int));
    }
    if v.len() == start {
        return None;
    }
    let mut acc: u64 = 0;
    let mut i: usize = start;
    proof {
        assert(body.take(0) =~= Seq::<char>::empty());
    }
    while i < v.len()
        invariant
            start <= i <= v@.len(),
            body == v@.skip(start as int),
            start == if v@.len() > 0 && v@[0] == '+' { 1int } else { 0int },
            acc <= u32::MAX,
            acc == fold_digits(body.take(i - start), 0),
            all_digits(body.take(i - start)),
        decreases v@.len() - i,
    {
        let c = v[i];
        if !('0' <= c && c <= '9') {
            proof {
                assert(body[i - start] == v@[i as int]);
                assert(!is_ascii_digit(body[i - start]));
                assert(!all_digits(body));
                assert(parse_u32_spec(v@) is None);
            }
            return None;
        }
        let d: u64 = c as u32 as u64 - 48;
        let next: u64 = acc * 10 + d;
        proof {
            assert(body.take(i + 1 - start) =~= body.take(i - start).push(body[i - start]));
            assert(body[i - start] == v@[i as int]);
            lemma_fold_push_pub(body.take(i - start), v@[i as int], 0);
        }
        if next > 0xffff_ffff {
            proof {
                lemma_fold_split(body, i + 1 - start, 0);
                if all_digits(body) {
                    assert forall|j: int| 0 <= j < body.skip(i + 1 - start).len() implies
                        is_ascii_digit(#[trigger] body.skip(i + 1 - start)[j]) by {
                        assert(body.skip(i + 1 - start)[j] == body[j + i + 1 - start]);
                        assert(is_ascii_digit(body[j + i + 1 - start]));
                    }
                    lemma_fold_ge(body.skip(i + 1 - start), next as int);
                    assert(fold_digits(body.take(i + 1 - start), 0) == next);
                    assert(fold_digits(body, 0) >= next);
                    assert(fold_digits(body, 0) > u32::MAX);
                }
                assert(!all_digits(body) || fold_digits(body, 0) > u32::MAX);
                assert(parse_u32_spec(v@) is None) by {
                    assert(body =~= if v@.len() > 0 && v@[0] == '+' {
                        v@.drop_first()
                    } else {
                        v@
                    });
                }
            }
            return None;
        }
        proof {
            assert forall|j: int| 0 <= j < body.take(i + 1 - start).len() implies is_ascii_digit(
                #[trigger] body.take(i + 1 - start)[j],
            ) by {
                if j < i - start {
                    assert(body.take(i + 1 - start)[j] == body.take(i - start)[j]);
                    assert(is_ascii_digit(body.take(i - start)[j]));
                } else {
                    assert(body.take(i + 1 - start)[j] == v@[i as int]);
                }
            }
        }
        acc = next;
        i += 1;
    }
    proof {
        assert(body.take(v@.len() - start) =~= body);
    }
    Some(acc as u32)
}

pub open spec fn digit_char(d: int) -> char {
    ((48 + d) as u8) as char
}

/// The decimal digits of `n` (with `n < 10` giving a single digit).
pub open spec fn dec_digits(n: int) -> Seq<char>
    decreases n,
{
    if n < 10 {
        seq![digit_char(n)]
    } else {
        dec_digits(n / 10).push(digit_char(n % 10))
    }
}

pub fn u32_to_chars(n: u32) -> (out: Vec<char>)
    ensures
        out@ == dec_digits(n as int),
    decreases n,
{
    if n < 10 {
        let c = (48 + n as u8) as char;
        let mut out: Vec<char> = Vec::new();
        out.push(c);
        assert(out@ =~= seq![digit_char(n as int)]);
        out
    } else {
        let mut out = u32_to_chars(n / 10);
        let c = (48 + (n % 10) as u8) as char;
        out.push(c);
        out
    }
}

/// `s` left-padded with '0' up to `width` characters.
pub open spec fn zero_pad(s: Seq<char>, width: int) -> Seq<char>
    decreases width - s.len(),
{
    if s.len() >= width {
        s
    } else {
        zero_pad(seq!['0'] + s, width)
    }
}

pub fn zero_pad_chars(v: Vec<char>, width: usize) -> (out: Vec<char>)
    ensures
        out@ == zero_pad(v@, width as int),
    decreases width - v@.len(),
{
    if v.len() >= width {
        v
    } else {
        let mut v = v;
        let ghost before = v@;
        v.insert(0, '0');
        assert(v@ =~= seq!['0'] + before);
        zero_pad_chars(v, width)
    }
}

/// `pat` occurs in `s` starting at index `i`.
pub open spec fn matches_at(s: Seq<char>, pat: Seq<char>, i: int) -> bool {
    0 <= i && i + pat.len() <= s.len() && s.subrange(i, i + pat.len()) == pat
}

/// Like `matches_at`, ignoring ASCII case.
pub open spec fn matches_ci_at(s: Seq<char>, pat: Seq<char>, i: int) -> bool {
    0 <= i && i + pat.len() <= s.len() && ascii_upper_seq(s.subrange(i, i + pat.len()))
        == ascii_upper_seq(pat)
}

pub fn check_match_at(v: &Vec<char>, pat: &Vec<char>, i: usize) -> (r: bool)
    ensures
        r == matches_at(v@, pat@, i as int),
{
    if i > v.len() || v.len() - i < pat.len() {
        return false;
    }
    proof {
        assert(v@.len() == v.len());
    }
    let mut j: usize = 0;
    while j < pat.len()
        invariant
            j <= pat@.len(),
            i + pat@.len() <= v@.len(),
            v@.len() <= usize::MAX,
            forall|k: int| 0 <= k < j ==> v@[i + k] == pat@[k],
        decreases pat@.len() - j,
    {
        if v[i + j] != pat[j] {
            assert(v@.subrange(i as int, i + pat@.len())[j as int] == v@[i + j]);
            return false;
        }
        j += 1;
    }
    assert(v@.subrange(i as int, i + pat@.len()) =~= pat@);
    true
}

pub fn check_match_ci_at(v: &Vec<char>, pat: &Vec<char>, i: usize) -> (r: bool)
    ensures
        r == matches_ci_at(v@, pat@, i as int),
{
    if i > v.len() || v.len() - i < pat.len() {
        return false;
    }
    proof {
        assert(v@.len() == v.len());
    }
    let ghost sub = v@.subrange(i as int, i + pat@.len());
    let mut j: usize = 0;
    while j < pat.len()
        invariant
            j <= pat@.len(),
            i + pat@.len() <= v@.len(),
            v@.len() <= usize::MAX,
            sub == v@.subrange(i as int, i + pat@.len()),
            forall|k: int| 0 <= k < j ==> ascii_upper(sub[k]) == ascii_upper(pat@[k]),
        decreases pat@.len() - j,
    {
        if ascii_upper_char(v[i + j]) != ascii_upper_char(pat[j]) {
            assert(sub[j as int] == v@[i + j]);
            assert(ascii_upper_seq(sub)[j as int] != ascii_upper_seq(pat@)[j as int]);
            return false;
        }
        assert(sub[j as int] == v@[i + j]);
        j += 1;
    }
    assert(ascii_upper_seq(sub) =~= ascii_upper_seq(pat@));
    true
}

/// First index at or after `from` where `pat` occurs in `v`, ASCII
/// case-insensitively; `None` when there is no such index.
pub fn find_sub_ci_from(v: &Vec<char>, pat: &Vec<char>, from: usize) -> (r: Option<usize>)
    requires
        from <= v@.len(),
    ensures
        match r {
            Some(i) => from <= i && matches_ci_at(v@, pat@, i as int) && forall|j: int|
                from <= j < i ==> !matches_ci_at(v@, pat@, j),
            None => forall|j: int| from <= j < v@.len() ==> !matches_ci_at(v@, pat@, j),
        },
{
    let mut i: usize = from;
    while i < v.len()
        invariant
            from <= i <= v@.len(),
            forall|j: int| from <= j < i ==> !matches_ci_at(v@, pat@, j),
        decreases v@.len() - i,
    {
        if check_match_ci_at(v, pat, i) {
            return Some(i);
        }
        i += 1;
    }
    None
}

pub fn trim_end_chars(v: &Vec<char>) -> (out: Vec<char>)
    ensures
        out@ == trim_end_ws(v@),
{
    let mut end: usize = v.len();
    while end > 0 && is_space_char(v[end - 1])
        invariant
            end <= v@.len(),
            forall|j: int| end <= j < v@.len() ==> is_space(#[trigger] v@[j]),
        decreases end,
    {
        end -= 1;
    }
    proof {
        lemma_trim_end_take(v@, end as int);
        assert(v@.subrange(0, end as int) =~= v@.take(end as int));
    }
    vec_subrange(v, 0, end)
}

pub proof fn lemma_trim_end_ws_len(s: Seq<char>)
    ensures
        trim_end_ws(s).len() <= s.len(),
    decreases s.len(),
{
    if s.len() > 0 && is_space(s[s.len() - 1]) {
        lemma_trim_end_ws_len(s.drop_last());
    }
}

pub proof fn lemma_trim_start_ws_len(s: Seq<char>)
    ensures
        trim_start_ws(s).len() <= s.len(),
    decreases s.len(),
{
    if s.len() > 0 && is_space(s[0]) {
        lemma_trim_start_ws_len(s.drop_first());
    }
}

pub proof fn lemma_collapse_ws_len(s: Seq<char>, b: bool)
    ensures
        collapse_ws(s, b).len() <= s.len(),
    decreases s.len(),
{
    if s.len() > 0 {
        lemma_collapse_ws_len(s.drop_first(), true);
        lemma_collapse_ws_len(s.drop_first(), false);
    }
}

pub proof fn lemma_norm_ws_len(s: Seq<char>)
    ensures
        norm_ws(s).len() <= s.len(),
{
    lemma_collapse_ws_len(s, false);
    lemma_trim_end_ws_len(collapse_ws(s, false));
    lemma_trim_start_ws_len(trim_end_ws(collapse_ws(s, false)));
}

/// Index of the last white-space character of `s`, or -1.
pub open spec fn rfind_space(s: Seq<char>) -> int
    decreases s.len(),
{
    if s.len() == 0 {
        -1
    } else if is_space(s[s.len() - 1]) {
        s.len() - 1
    } else {
        rfind_space(s.drop_last())
    }
}

pub proof fn lemma_rfind_space_props(s: Seq<char>)
    ensures
        rfind_space(s) < s.len(),
        rfind_space(s) >= 0 ==> is_space(s[rfind_space(s)]),
    decreases s.len(),
{
    if s.len() > 0 && !is_space(s[s.len() - 1]) {
        lemma_rfind_space_props(s.drop_last());
    }
}

pub fn rfind_space_vec(v: &Vec<char>) -> (r: Option<usize>)
    ensures
        match r {
            Some(i) => i < v@.len() && rfind_space(v@) == i as int,
            None => rfind_space(v@) < 0,
        },
{
    let mut end: usize = v.len();
    proof {
        assert(v@.take(v@.len() as int) =~= v@);
    }
    while end > 0
        invariant
            end <= v@.len(),
            rfind_space(v@) == rfind_space(v@.take(end as int)),
        decreases end,
    {
        proof {
            assert(v@.take(end as int).drop_last() =~= v@.take(end - 1));
            assert(v@.take(end as int)[end - 1] == v@[end - 1]);
        }
        if is_space_char(v[end - 1]) {
            return Some(end - 1);
        }
        end -= 1;
    }
    assert(v@.take(0) =~= Seq::<char>::empty());
    None
}

/// Collapse runs of white space (including newlines) to single spaces and
/// trim both ends, as a `Vec<char>` transformation.
pub fn normalize_chars(v: &Vec<char>) -> (out: Vec<char>)
    ensures
        out@ == norm_ws(v@),
{
    let collapsed = collapse_chars(v);
    trim_chars(&collapsed)
}

/// Collapse every run of white space to a single space and trim the ends.
pub fn normalize_text(value: &str) -> (r: String)
    ensures
        r@ == norm_ws(value@),
{
    let v = str_to_chars(value);
    let n = normalize_chars(&v);
    chars_to_string(&n)
}

/// Like `normalize_text`; a missing value normalizes to the empty string.
pub fn normalize_optional(value: Option<&str>) -> (r: String)
    ensures
        r@ == match value {
            Some(s) => norm_ws(s@),
            None => Seq::<char>::empty(),
        },
{
    match value {
        Some(s) => normalize_text(s),
        None => String::new(),
    }
}

} // verus!

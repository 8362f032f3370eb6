use vstd::prelude::*;

use crate::text::{
    ascii_upper_chars, ascii_upper_seq, find_char, find_char_from, is_ascii_upper,
    join_sep, join_with, lemma_norm_ws_len, lemma_rfind_space_props, lemma_trim_end_ws_len,
    norm_ws, normalize_chars, rfind_space, rfind_space_vec, split_char, split_char_vec,
    str_to_chars, chars_to_string, trim_any, trim_chars, trim_end_any, trim_end_chars,
    trim_end_set, trim_end_ws, trim_start_set, trim_ws, vec_eq_str, vec_subrange,
};

verus! {

/// The punctuation stripped from both ends of a candidate allergen token.
pub open spec fn token_trim_set() -> Seq<char> {
    seq!['(', ')', ',', ';', ':', '.']
}

fn token_trim_chars() -> (out: Vec<char>)
    ensures
        out@ == token_trim_set(),
{
    let mut out: Vec<char> = Vec::new();
    out.push('(');
    out.push(')');
    out.push(',');
    out.push(';');
    out.push(':');
    out.push('.');
    assert(out@ =~= token_trim_set());
    out
}

/// The canonical form of one allergen token, if the token qualifies:
/// a literal `*`, a single ASCII letter (upper-cased), or one of the fixed
/// abbreviations (`VEG` canonicalised to `Veg`, the others upper-cased).
pub open spec fn spec_allergen_token(token: Seq<char>) -> Option<Seq<char>> {
    let clean = trim_start_set(trim_end_set(norm_ws(token), token_trim_set()), token_trim_set());
    if clean.len() == 0 {
        None
    } else if clean == seq!['*'] {
        Some(seq!['*'])
    } else {
        let upper = ascii_upper_seq(clean);
        if upper.len() == 1 && is_ascii_upper(upper[0]) {
            Some(upper)
        } else if upper == "ILM"@ || upper == "VS"@ || upper == "VL"@ {
            Some(upper)
        } else if upper == "VEG"@ {
            Some("Veg"@)
        } else {
            None
        }
    }
}

/// Recognise one allergen token and canonicalise it.
pub fn normalize_allergen_token(token: &Vec<char>) -> (r: Option<Vec<char>>)
    ensures
        match r {
            Some(v) => spec_allergen_token(token@) == Some(v@),
            None => spec_allergen_token(token@) is None,
        },
{
    let normed = normalize_chars(token);
    let set = token_trim_chars();
    let clean = trim_any(&normed, &set);
    if clean.len() == 0 {
        return None;
    }
    if clean.len() == 1 && clean[0] == '*' {
        assert(clean@ =~= seq!['*']);
        let mut star: Vec<char> = Vec::new();
        star.push('*');
        assert(star@ =~= seq!['*']);
        return Some(star);
    }
    assert(clean@ != seq!['*']);
    let upper = ascii_upper_chars(&clean);
    if upper.len() == 1 {
        let c = upper[0];
        if 'A' <= c && c <= 'Z' {
            return Some(upper);
        }
    }
    if vec_eq_str(&upper, "ILM") || vec_eq_str(&upper, "VS") || vec_eq_str(&upper, "VL") {
        return Some(upper);
    }
    if vec_eq_str(&upper, "VEG") {
        let veg = str_to_chars("Veg");
        return Some(veg);
    }
    None
}

/// Case-insensitive de-duplication keeping the first occurrence of each
/// token; `seen` holds the upper-cased keys already emitted.
pub open spec fn spec_dedupe(tokens: Seq<Seq<char>>, seen: Seq<Seq<char>>) -> Seq<Seq<char>>
    decreases tokens.len(),
{
    if tokens.len() == 0 {
        Seq::empty()
    } else {
        let key = ascii_upper_seq(tokens[0]);
        if seen.contains(key) {
            spec_dedupe(tokens.drop_first(), seen)
        } else {
            seq![tokens[0]] + spec_dedupe(tokens.drop_first(), seen.push(key))
        }
    }
}

pub fn vec_chars_eq(a: &Vec<char>, b: &Vec<char>) -> (r: bool)
    ensures
        r == (a@ == b@),
{
    if a.len() != b.len() {
        assert(a@ != b@);
        return false;
    }
    let mut i: usize = 0;
    while i < a.len()
        invariant
            i <= a@.len(),
            a@.len() == b@.len(),
            forall|j: int| 0 <= j < i ==> a@[j] == b@[j],
        decreases a@.len() - i,
    {
        if a[i] != b[i] {
            assert(a@ != b@);
            return false;
        }
        i += 1;
    }
    assert(a@ =~= b@);
    true
}

pub fn seen_contains_pub(seen: &Vec<Vec<char>>, key: &Vec<char>) -> (r: bool)
    ensures
        r == seen@.map_values(|p: Vec<char>| p@).contains(key@),
{
    let ghost skeys = seen@.map_values(|p: Vec<char>| p@);
    let mut i: usize = 0;
    while i < seen.len()
        invariant
            i <= seen@.len(),
            skeys == seen@.map_values(|p: Vec<char>| p@),
            forall|j: int| 0 <= j < i ==> skeys[j] != key@,
        decreases seen@.len() - i,
    {
        if vec_chars_eq(&seen[i], key) {
            assert(skeys[i as int] == key@);
            return true;
        }
        i += 1;
    }
    assert(forall|j: int| 0 <= j < skeys.len() ==> skeys[j] != key@);
    false
}

/// Drop repeated tokens, comparing ASCII-case-insensitively and keeping the
/// first occurrence, in order.
pub fn dedupe_tokens(tokens: &Vec<Vec<char>>) -> (out: Vec<Vec<char>>)
    ensures
        out@.map_values(|p: Vec<char>| p@) == spec_dedupe(
            tokens@.map_values(|p: Vec<char>| p@),
            Seq::empty(),
        ),
{
    let mut out: Vec<Vec<char>> = Vec::new();
    let mut seen: Vec<Vec<char>> = Vec::new();
    let ghost stoks = tokens@.map_values(|p: Vec<char>| p@);
    let mut i: usize = 0;
    proof {
        assert(stoks.skip(0) =~= stoks);
        assert(seen@.map_values(|p: Vec<char>| p@) =~= Seq::<Seq<char>>::empty());
        assert(out@.map_values(|p: Vec<char>| p@) =~= Seq::<Seq<char>>::empty());
        assert(out@.map_values(|p: Vec<char>| p@) + spec_dedupe(stoks, Seq::empty()) =~= spec_dedupe(
            stoks,
            Seq::empty(),
        ));
    }
    while i < tokens.len()
        invariant
            i <= tokens@.len(),
            stoks == tokens@.map_values(|p: Vec<char>| p@),
            spec_dedupe(stoks, Seq::empty()) == out@.map_values(|p: Vec<char>| p@) + spec_dedupe(
                stoks.skip(i as int),
                seen@.map_values(|p: Vec<char>| p@),
            ),
        decreases tokens@.len() - i,
    {
        let ghost rest = stoks.skip(i as int);
        let ghost sseen = seen@.map_values(|p: Vec<char>| p@);
        proof {
            assert(rest[0] == stoks[i as int]);
            assert(rest.drop_first() =~= stoks.skip(i + 1));
        }
        let key = ascii_upper_chars(&tokens[i]);
        if seen_contains_pub(&seen, &key) {
            // already emitted; skip
        } else {
            let copy = vec_subrange(&tokens[i], 0, tokens[i].len());
            assert(copy@ =~= stoks[i as int]);
            out.push(copy);
            seen.push(key);
            proof {
                assert(seen@.map_values(|p: Vec<char>| p@) =~= sseen.push(
                    ascii_upper_seq(stoks[i as int]),
                ));
                assert(out@.map_values(|p: Vec<char>| p@) =~= out@.map_values(
                    |p: Vec<char>| p@,
                ).take(out@.len() - 1) + seq![stoks[i as int]]);
            }
        }
        i += 1;
    }
    assert(stoks.skip(stoks.len() as int) =~= Seq::<Seq<char>>::empty());
    assert(out@.map_values(|p: Vec<char>| p@) + Seq::<Seq<char>>::empty() =~= out@.map_values(
        |p: Vec<char>| p@,
    ));
    out
}

/// Index of the '(' that balances the final ')' when scanning `s` from the
/// end; `depth` open ')' are pending.
pub open spec fn find_open(s: Seq<char>, i: int, depth: int) -> Option<int>
    decreases i + 1,
{
    if i < 0 {
        None
    } else if s[i] == ')' {
        find_open(s, i - 1, depth + 1)
    } else if s[i] == '(' {
        if depth - 1 == 0 {
            Some(i)
        } else if depth - 1 < 0 {
            None
        } else {
            find_open(s, i - 1, depth - 1)
        }
    } else {
        find_open(s, i - 1, depth)
    }
}

pub open spec fn spec_find_matching(s: Seq<char>) -> Option<int> {
    find_open(s, s.len() - 1, 0)
}

proof fn lemma_find_open_props(s: Seq<char>, i: int, depth: int)
    requires
        i < s.len(),
    ensures
        match find_open(s, i, depth) {
            Some(k) => 0 <= k <= i && s[k] == '(',
            None => true,
        },
    decreases i + 1,
{
    if i >= 0 && !(s[i] == '(' && (depth - 1 == 0 || depth - 1 < 0)) {
        if s[i] == ')' {
            lemma_find_open_props(s, i - 1, depth + 1);
        } else if s[i] == '(' {
            lemma_find_open_props(s, i - 1, depth - 1);
        } else {
            lemma_find_open_props(s, i - 1, depth);
        }
    }
}

/// Scan backwards for the '(' matching the trailing ')' of `v`.
pub fn find_matching_open_paren(v: &Vec<char>) -> (r: Option<usize>)
    ensures
        match r {
            Some(k) => spec_find_matching(v@) == Some(k as int) && k < v@.len() && v@[k as int]
                == '(',
            None => spec_find_matching(v@) is None,
        },
{
    let mut i: usize = v.len();
    let mut depth: usize = 0;
    proof {
        lemma_find_open_props(v@, v@.len() - 1, 0);
        assert(v@.len() == v.len());
    }
    while i > 0
        invariant
            i <= v@.len(),
            v@.len() <= usize::MAX,
            depth <= v@.len() - i,
            spec_find_matching(v@) == find_open(v@, i - 1, depth as int),
            match spec_find_matching(v@) {
                Some(k) => 0 <= k < v@.len() && v@[k] == '(',
                None => true,
            },
        decreases i,
    {
        let c = v[i - 1];
        if c == ')' {
            depth += 1;
        } else if c == '(' {
            if depth == 1 {
                return Some(i - 1);
            }
            if depth == 0 {
                return None;
            }
            depth -= 1;
        }
        i -= 1;
    }
    None
}

/// What a parenthesized group's inside parses to: its canonical tokens, an
/// empty group, or a group holding a disqualifying token.
pub enum GroupTokensSpec {
    Toks(Seq<Seq<char>>),
    EmptyGroup,
    BadGroup,
}

pub enum GroupParse {
    Toks(Vec<Vec<char>>),
    EmptyGroup,
    BadGroup,
}

pub open spec fn collect_tokens(parts: Seq<Seq<char>>) -> Option<Seq<Seq<char>>>
    decreases parts.len(),
{
    if parts.len() == 0 {
        Some(Seq::empty())
    } else {
        let clean = norm_ws(parts[0]);
        if clean.len() == 0 {
            collect_tokens(parts.drop_first())
        } else {
            match spec_allergen_token(clean) {
                Option::None => None,
                Option::Some(t) => match collect_tokens(parts.drop_first()) {
                    Option::None => None,
                    Option::Some(r) => Some(seq![t] + r),
                },
            }
        }
    }
}

pub open spec fn spec_group_tokens(raw: Seq<char>) -> GroupTokensSpec {
    let inside = norm_ws(raw);
    if inside.len() == 0 {
        GroupTokensSpec::EmptyGroup
    } else {
        let parts = if find_char(inside, ',') >= 0 {
            split_char(inside, ',')
        } else {
            split_char(inside, ' ')
        };
        match collect_tokens(parts) {
            Option::None => GroupTokensSpec::BadGroup,
            Option::Some(toks) => if toks.len() == 0 {
                GroupTokensSpec::EmptyGroup
            } else {
                GroupTokensSpec::Toks(toks)
            },
        }
    }
}

fn collect_tokens_exec(parts: &Vec<Vec<char>>, i: usize) -> (r: Option<Vec<Vec<char>>>)
    requires
        i <= parts@.len(),
    ensures
        match r {
            Some(v) => collect_tokens(parts@.map_values(|p: Vec<char>| p@).skip(i as int)) == Some(
                v@.map_values(|p: Vec<char>| p@),
            ),
            None => collect_tokens(parts@.map_values(|p: Vec<char>| p@).skip(i as int)) is None,
        },
    decreases parts@.len() - i,
{
    let ghost sparts = parts@.map_values(|p: Vec<char>| p@);
    let ghost rest = sparts.skip(i as int);
    if i == parts.len() {
        let empty: Vec<Vec<char>> = Vec::new();
        proof {
            assert(rest.len() == 0);
            assert(empty@.map_values(|p: Vec<char>| p@) =~= Seq::<Seq<char>>::empty());
            assert(collect_tokens(rest) == Some(Seq::<Seq<char>>::empty()));
        }
        return Some(empty);
    }
    proof {
        assert(rest[0] == sparts[i as int]);
        assert(rest.drop_first() =~= sparts.skip(i + 1));
    }
    let clean = normalize_chars(&parts[i]);
    if clean.len() == 0 {
        return collect_tokens_exec(parts, i + 1);
    }
    match normalize_allergen_token(&clean) {
        None => {
            proof {
                lemma_norm_token_of_normed(parts@[i as int]@);
            }
            None
        },
        Some(tok) => {
            proof {
                lemma_norm_token_of_normed(parts@[i as int]@);
            }
            match collect_tokens_exec(parts, i + 1) {
                None => None,
                Some(mut r) => {
                    let ghost rv = r@.map_values(|p: Vec<char>| p@);
                    r.insert(0, tok);
                    proof {
                        assert(r@.map_values(|p: Vec<char>| p@) =~= seq![
                            spec_allergen_token(norm_ws(parts@[i as int]@))->Some_0,
                        ] + rv);
                    }
                    Some(r)
                },
            }
        },
    }
}

/// Normalizing before tokenising changes nothing: the token rule normalizes
/// its input itself.
proof fn lemma_norm_token_of_normed(s: Seq<char>)
    ensures
        spec_allergen_token(norm_ws(s)) == spec_allergen_token(s),
{
    crate::text::lemma_norm_ws_idempotent(s);
}

/// Parse the inside of one trailing parenthesized group.
pub fn parse_parenthesized_group_tokens(raw: &Vec<char>) -> (r: GroupParse)
    ensures
        match r {
            GroupParse::Toks(v) => spec_group_tokens(raw@) == GroupTokensSpec::Toks(
                v@.map_values(|p: Vec<char>| p@),
            ),
            GroupParse::EmptyGroup => spec_group_tokens(raw@) == GroupTokensSpec::EmptyGroup,
            GroupParse::BadGroup => spec_group_tokens(raw@) == GroupTokensSpec::BadGroup,
        },
{
    let inside = normalize_chars(raw);
    if inside.len() == 0 {
        return GroupParse::EmptyGroup;
    }
    let has_comma = match find_char_from(&inside, 0, ',') {
        Some(_) => true,
        None => false,
    };
    proof {
        assert(inside@.skip(0) =~= inside@);
    }
    let parts = if has_comma {
        split_char_vec(&inside, ',')
    } else {
        split_char_vec(&inside, ' ')
    };
    match collect_tokens_exec(&parts, 0) {
        None => {
            proof {
                assert(parts@.map_values(|p: Vec<char>| p@).skip(0) =~= parts@.map_values(
                    |p: Vec<char>| p@,
                ));
            }
            GroupParse::BadGroup
        },
        Some(toks) => {
            proof {
                assert(parts@.map_values(|p: Vec<char>| p@).skip(0) =~= parts@.map_values(
                    |p: Vec<char>| p@,
                ));
            }
            if toks.len() == 0 {
                assert(toks@.map_values(|p: Vec<char>| p@).len() == 0);
                GroupParse::EmptyGroup
            } else {
                GroupParse::Toks(toks)
            }
        },
    }
}

/// Strip every well-formed trailing parenthesized allergen group from
/// `main`; the stripped groups' tokens are returned in text order.
pub open spec fn spec_extract_trailing(main: Seq<char>) -> (Seq<char>, Seq<Seq<char>>)
    decreases main.len(),
    via spec_extract_trailing_dec
{
    let trimmed = trim_end_ws(main);
    if trimmed.len() == 0 || trimmed[trimmed.len() - 1] != ')' {
        (main, Seq::empty())
    } else {
        match spec_find_matching(trimmed) {
            Option::None => (main, Seq::empty()),
            Option::Some(start) => {
                let inside = trimmed.subrange(start + 1, trimmed.len() - 1);
                let next_main = trim_end_ws(trimmed.take(start));
                match spec_group_tokens(inside) {
                    GroupTokensSpec::Toks(toks) => {
                        let r = spec_extract_trailing(next_main);
                        (r.0, r.1 + toks)
                    },
                    GroupTokensSpec::EmptyGroup => spec_extract_trailing(next_main),
                    GroupTokensSpec::BadGroup => (main, Seq::empty()),
                }
            },
        }
    }
}

#[via_fn]
proof fn spec_extract_trailing_dec(main: Seq<char>) {
    let trimmed = trim_end_ws(main);
    lemma_trim_end_ws_len(main);
    if trimmed.len() > 0 && trimmed[trimmed.len() - 1] == ')' {
        match spec_find_matching(trimmed) {
            Option::None => {},
            Option::Some(start) => {
                lemma_find_open_props(trimmed, trimmed.len() - 1, 0);
                lemma_trim_end_ws_len(trimmed.take(start));
            },
        }
    }
}

fn append_groups(dst: &mut Vec<Vec<char>>, src: &Vec<Vec<char>>)
    ensures
        final(dst)@.map_values(|p: Vec<char>| p@) == old(dst)@.map_values(|p: Vec<char>| p@)
            + src@.map_values(|p: Vec<char>| p@),
{
    let ghost base = dst@.map_values(|p: Vec<char>| p@);
    let ghost ssrc = src@.map_values(|p: Vec<char>| p@);
    let mut i: usize = 0;
    proof {
        assert(base + ssrc.take(0) =~= base);
    }
    while i < src.len()
        invariant
            i <= src@.len(),
            base == old(dst)@.map_values(|p: Vec<char>| p@),
            ssrc == src@.map_values(|p: Vec<char>| p@),
            dst@.map_values(|p: Vec<char>| p@) == base + ssrc.take(i as int),
        decreases src@.len() - i,
    {
        let copy = vec_subrange(&src[i], 0, src[i].len());
        assert(copy@ =~= ssrc[i as int]);
        let ghost pre = dst@;
        dst.push(copy);
        proof {
            assert(dst@.map_values(|p: Vec<char>| p@) =~= pre.map_values(|p: Vec<char>| p@).push(
                ssrc[i as int],
            ));
            assert(ssrc.take(i + 1) =~= ssrc.take(i as int).push(ssrc[i as int]));
            assert(base + ssrc.take(i as int).push(ssrc[i as int]) =~= (base + ssrc.take(
                i as int,
            )).push(ssrc[i as int]));
        }
        i += 1;
    }
    assert(base + ssrc.take(src@.len() as int) =~= base + ssrc);
}

/// Strip trailing parenthesized allergen groups off `main`.
pub fn extract_trailing_parenthesized_allergens(main: &Vec<char>) -> (r: (Vec<char>, Vec<
    Vec<char>,
>))
    ensures
        ({
            let s = spec_extract_trailing(main@);
            r.0@ == s.0 && r.1@.map_values(|p: Vec<char>| p@) == s.1
        }),
    decreases main@.len(),
{
    let trimmed = trim_end_chars(main);
    proof {
        lemma_trim_end_ws_len(main@);
    }
    if trimmed.len() == 0 || trimmed[trimmed.len() - 1] != ')' {
        let keep = vec_subrange(main, 0, main.len());
        assert(keep@ =~= main@);
        let none: Vec<Vec<char>> = Vec::new();
        assert(none@.map_values(|p: Vec<char>| p@) =~= Seq::<Seq<char>>::empty());
        return (keep, none);
    }
    match find_matching_open_paren(&trimmed) {
        None => {
            let keep = vec_subrange(main, 0, main.len());
            assert(keep@ =~= main@);
            let none: Vec<Vec<char>> = Vec::new();
            assert(none@.map_values(|p: Vec<char>| p@) =~= Seq::<Seq<char>>::empty());
            (keep, none)
        },
        Some(start) => {
            assert(start < trimmed@.len() - 1) by {
                assert(trimmed@[start as int] == '(');
                assert(trimmed@[trimmed@.len() - 1] == ')');
            }
            let inside = vec_subrange(&trimmed, start + 1, trimmed.len() - 1);
            let head = vec_subrange(&trimmed, 0, start);
            assert(head@ =~= trimmed@.take(start as int));
            let next_main = trim_end_chars(&head);
            proof {
                lemma_trim_end_ws_len(trimmed@.take(start as int));
            }
            match parse_parenthesized_group_tokens(&inside) {
                GroupParse::Toks(toks) => {
                    let (m, mut gs) = extract_trailing_parenthesized_allergens(&next_main);
                    append_groups(&mut gs, &toks);
                    (m, gs)
                },
                GroupParse::EmptyGroup => extract_trailing_parenthesized_allergens(&next_main),
                GroupParse::BadGroup => {
                    let keep = vec_subrange(main, 0, main.len());
                    assert(keep@ =~= main@);
                    let none: Vec<Vec<char>> = Vec::new();
                    assert(none@.map_values(|p: Vec<char>| p@) =~= Seq::<Seq<char>>::empty());
                    (keep, none)
                },
            }
        },
    }
}

/// Peel one trailing space-separated allergen token off `text`.
pub open spec fn spec_peel(text: Seq<char>) -> Option<(Seq<char>, Seq<char>)> {
    let trimmed = trim_end_ws(text);
    let j = rfind_space(trimmed);
    if j < 0 {
        None
    } else {
        let prefix = norm_ws(trimmed.take(j));
        let candidate = norm_ws(trimmed.skip(j + 1));
        match spec_allergen_token(candidate) {
            Option::None => None,
            Option::Some(tok) => if prefix.len() == 0 {
                None
            } else {
                Some((prefix, tok))
            },
        }
    }
}

pub fn peel_last_allergen_token(text: &Vec<char>) -> (r: Option<(Vec<char>, Vec<char>)>)
    ensures
        match r {
            Some(p) => spec_peel(text@) == Some((p.0@, p.1@)),
            None => spec_peel(text@) is None,
        },
{
    let trimmed = trim_end_chars(text);
    match rfind_space_vec(&trimmed) {
        None => None,
        Some(j) => {
            proof {
                assert(trimmed@.len() == trimmed.len());
            }
            let head = vec_subrange(&trimmed, 0, j);
            assert(head@ =~= trimmed@.take(j as int));
            let tail = vec_subrange(&trimmed, j + 1, trimmed.len());
            assert(tail@ =~= trimmed@.skip(j + 1));
            let prefix = normalize_chars(&head);
            let candidate = normalize_chars(&tail);
            proof {
                lemma_norm_token_of_normed(trimmed@.skip(j + 1));
            }
            match normalize_allergen_token(&candidate) {
                None => None,
                Some(tok) => {
                    if prefix.len() == 0 {
                        None
                    } else {
                        Some((prefix, tok))
                    }
                },
            }
        },
    }
}

/// Peel trailing allergen tokens until none qualifies; the peeled tokens
/// come back in text order.
pub open spec fn spec_peel_all(text: Seq<char>) -> (Seq<char>, Seq<Seq<char>>)
    decreases text.len(),
    via spec_peel_all_dec
{
    match spec_peel(text) {
        Option::None => (text, Seq::empty()),
        Option::Some((p, t)) => {
            let r = spec_peel_all(p);
            (r.0, r.1.push(t))
        },
    }
}

#[via_fn]
proof fn spec_peel_all_dec(text: Seq<char>) {
    lemma_peel_shrinks(text);
}

proof fn lemma_peel_shrinks(text: Seq<char>)
    ensures
        match spec_peel(text) {
            Option::Some(p) => p.0.len() < text.len(),
            Option::None => true,
        },
{
    let trimmed = trim_end_ws(text);
    lemma_trim_end_ws_len(text);
    lemma_rfind_space_props(trimmed);
    let j = rfind_space(trimmed);
    if j >= 0 {
        lemma_norm_ws_len(trimmed.take(j));
    }
}

pub fn peel_all_tokens(text: &Vec<char>) -> (r: (Vec<char>, Vec<Vec<char>>))
    ensures
        ({
            let s = spec_peel_all(text@);
            r.0@ == s.0 && r.1@.map_values(|p: Vec<char>| p@) == s.1
        }),
    decreases text@.len(),
{
    proof {
        lemma_peel_shrinks(text@);
    }
    match peel_last_allergen_token(text) {
        None => {
            let keep = vec_subrange(text, 0, text.len());
            assert(keep@ =~= text@);
            let none: Vec<Vec<char>> = Vec::new();
            assert(none@.map_values(|p: Vec<char>| p@) =~= Seq::<Seq<char>>::empty());
            (keep, none)
        },
        Some((prefix, tok)) => {
            let (m, mut ts) = peel_all_tokens(&prefix);
            let ghost before = ts@.map_values(|p: Vec<char>| p@);
            ts.push(tok);
            proof {
                assert(ts@.map_values(|p: Vec<char>| p@) =~= before.push(
                    spec_peel(text@)->Some_0.1,
                ));
            }
            (m, ts)
        },
    }
}

/// The trailing characters stripped before inline extraction.
pub open spec fn inline_trim_set() -> Seq<char> {
    seq![' ', ',', ';', ':', '.']
}

fn inline_trim_chars() -> (out: Vec<char>)
    ensures
        out@ == inline_trim_set(),
{
    let mut out: Vec<char> = Vec::new();
    out.push(' ');
    out.push(',');
    out.push(';');
    out.push(':');
    out.push('.');
    assert(out@ =~= inline_trim_set());
    out
}

/// The trailing characters stripped from the main text at the very end.
pub open spec fn main_trim_set() -> Seq<char> {
    seq![' ', ',', ';', ':']
}

fn main_trim_chars() -> (out: Vec<char>)
    ensures
        out@ == main_trim_set(),
{
    let mut out: Vec<char> = Vec::new();
    out.push(' ');
    out.push(',');
    out.push(';');
    out.push(':');
    assert(out@ =~= main_trim_set());
    out
}

/// Each part normalized, empty parts dropped.
pub open spec fn norm_parts(parts: Seq<Seq<char>>) -> Seq<Seq<char>>
    decreases parts.len(),
{
    if parts.len() == 0 {
        Seq::empty()
    } else {
        let c = norm_ws(parts[0]);
        let r = norm_parts(parts.drop_first());
        if c.len() > 0 {
            seq![c] + r
        } else {
            r
        }
    }
}

pub fn norm_parts_pub(parts: &Vec<Vec<char>>) -> (out: Vec<Vec<char>>)
    ensures
        out@.map_values(|p: Vec<char>| p@) == norm_parts(parts@.map_values(|p: Vec<char>| p@)),
{
    let ghost sparts = parts@.map_values(|p: Vec<char>| p@);
    let mut out: Vec<Vec<char>> = Vec::new();
    let mut i: usize = 0;
    proof {
        assert(sparts.skip(0) =~= sparts);
        assert(out@.map_values(|p: Vec<char>| p@) =~= Seq::<Seq<char>>::empty());
        assert(out@.map_values(|p: Vec<char>| p@) + norm_parts(sparts) =~= norm_parts(sparts));
    }
    while i < parts.len()
        invariant
            i <= parts@.len(),
            sparts == parts@.map_values(|p: Vec<char>| p@),
            norm_parts(sparts) == out@.map_values(|p: Vec<char>| p@) + norm_parts(
                sparts.skip(i as int),
            ),
        decreases parts@.len() - i,
    {
        let ghost rest = sparts.skip(i as int);
        proof {
            assert(rest[0] == sparts[i as int]);
            assert(rest.drop_first() =~= sparts.skip(i + 1));
        }
        let c = normalize_chars(&parts[i]);
        if c.len() > 0 {
            let ghost pre = out@;
            out.push(c);
            proof {
                assert(out@.map_values(|p: Vec<char>| p@) =~= pre.map_values(
                    |p: Vec<char>| p@,
                ).push(norm_ws(sparts[i as int])));
                assert(pre.map_values(|p: Vec<char>| p@).push(norm_ws(sparts[i as int]))
                    =~= pre.map_values(|p: Vec<char>| p@) + seq![norm_ws(sparts[i as int])]);
                assert(pre.map_values(|p: Vec<char>| p@) + (seq![norm_ws(sparts[i as int])]
                    + norm_parts(sparts.skip(i + 1))) =~= (pre.map_values(|p: Vec<char>| p@)
                    + seq![norm_ws(sparts[i as int])]) + norm_parts(sparts.skip(i + 1)));
            }
        }
        i += 1;
    }
    assert(sparts.skip(sparts.len() as int) =~= Seq::<Seq<char>>::empty());
    assert(out@.map_values(|p: Vec<char>| p@) + Seq::<Seq<char>>::empty() =~= out@.map_values(
        |p: Vec<char>| p@,
    ));
    out
}

/// The canonical tokens of the maximal all-token tail of `parts`.
pub open spec fn tail_tokens(parts: Seq<Seq<char>>) -> Seq<Seq<char>>
    decreases parts.len(),
{
    if parts.len() == 0 {
        Seq::empty()
    } else {
        let cand = norm_ws(parts.last());
        match spec_allergen_token(cand) {
            Option::None => Seq::empty(),
            Option::Some(t) => tail_tokens(parts.drop_last()).push(t),
        }
    }
}

proof fn lemma_tail_tokens_len(parts: Seq<Seq<char>>)
    ensures
        tail_tokens(parts).len() <= parts.len(),
    decreases parts.len(),
{
    if parts.len() > 0 {
        lemma_tail_tokens_len(parts.drop_last());
    }
}

fn tail_tokens_exec(parts: &Vec<Vec<char>>, n: usize) -> (out: Vec<Vec<char>>)
    requires
        n <= parts@.len(),
    ensures
        out@.map_values(|p: Vec<char>| p@) == tail_tokens(
            parts@.map_values(|p: Vec<char>| p@).take(n as int),
        ),
    decreases n,
{
    let ghost sparts = parts@.map_values(|p: Vec<char>| p@);
    let ghost cur = sparts.take(n as int);
    if n == 0 {
        let none: Vec<Vec<char>> = Vec::new();
        assert(none@.map_values(|p: Vec<char>| p@) =~= Seq::<Seq<char>>::empty());
        return none;
    }
    proof {
        assert(cur.last() == sparts[n - 1]);
        assert(cur.drop_last() =~= sparts.take(n - 1));
    }
    let cand = normalize_chars(&parts[n - 1]);
    proof {
        lemma_norm_token_of_normed(sparts[n - 1]);
    }
    match normalize_allergen_token(&cand) {
        None => {
            let none: Vec<Vec<char>> = Vec::new();
            assert(none@.map_values(|p: Vec<char>| p@) =~= Seq::<Seq<char>>::empty());
            none
        },
        Some(t) => {
            let mut out = tail_tokens_exec(parts, n - 1);
            let ghost pre = out@.map_values(|p: Vec<char>| p@);
            out.push(t);
            proof {
                assert(out@.map_values(|p: Vec<char>| p@) =~= pre.push(
                    spec_allergen_token(norm_ws(cur.last()))->Some_0,
                ));
            }
            out
        },
    }
}

/// Extract a run of trailing comma- or space-delimited allergen tokens when
/// the line has no parenthesized group of its own.
pub open spec fn spec_extract_inline(text: Seq<char>) -> (Seq<char>, Seq<Seq<char>>) {
    let compact = trim_end_set(norm_ws(text), inline_trim_set());
    if compact.len() == 0 {
        (Seq::<char>::empty(), Seq::<Seq<char>>::empty())
    } else {
        let parts = norm_parts(split_char(compact, ','));
        if parts.len() < 2 {
            (compact, Seq::<Seq<char>>::empty())
        } else {
            let suffix = tail_tokens(parts);
            if suffix.len() == 0 {
                (compact, Seq::<Seq<char>>::empty())
            } else {
                let main0 = norm_ws(
                    join_sep(parts.take(parts.len() - suffix.len() as int), ", "@),
                );
                if main0.len() == 0 {
                    (compact, Seq::<Seq<char>>::empty())
                } else {
                    let r = spec_peel_all(main0);
                    if r.0.len() == 0 {
                        (compact, Seq::<Seq<char>>::empty())
                    } else {
                        (r.0, r.1 + suffix)
                    }
                }
            }
        }
    }
}

pub fn extract_inline_allergens(text: &Vec<char>) -> (r: (Vec<char>, Vec<Vec<char>>))
    ensures
        ({
            let s = spec_extract_inline(text@);
            r.0@ == s.0 && r.1@.map_values(|p: Vec<char>| p@) == s.1
        }),
{
    let normed = normalize_chars(text);
    let set = inline_trim_chars();
    let compact = trim_end_any(&normed, &set);
    let none: Vec<Vec<char>> = Vec::new();
    assert(none@.map_values(|p: Vec<char>| p@) =~= Seq::<Seq<char>>::empty());
    if compact.len() == 0 {
        let empty: Vec<char> = Vec::new();
        assert(empty@ =~= Seq::<char>::empty());
        return (empty, none);
    }
    let raw_parts = split_char_vec(&compact, ',');
    let parts = norm_parts_pub(&raw_parts);
    let ghost sparts = parts@.map_values(|p: Vec<char>| p@);
    if parts.len() < 2 {
        return (compact, none);
    }
    let suffix = tail_tokens_exec(&parts, parts.len());
    proof {
        assert(sparts.take(parts@.len() as int) =~= sparts);
    }
    if suffix.len() == 0 {
        return (compact, none);
    }
    assert(suffix@.map_values(|p: Vec<char>| p@).len() == suffix@.len());
    proof {
        lemma_tail_tokens_len(sparts);
        assert(suffix@.len() == tail_tokens(sparts).len());
        assert(sparts.len() == parts@.len());
    }
    let keep = parts.len() - suffix.len();
    let head_parts = vec_group_subrange_pub(&parts, 0, keep);
    proof {
        assert(head_parts@.map_values(|p: Vec<char>| p@) =~= sparts.take(keep as int));
    }
    let sep = str_to_chars(", ");
    let joined = join_with(&head_parts, &sep);
    let main0 = normalize_chars(&joined);
    if main0.len() == 0 {
        return (compact, none);
    }
    let (m, mut peeled) = peel_all_tokens(&main0);
    if m.len() == 0 {
        return (compact, none);
    }
    append_groups(&mut peeled, &suffix);
    (m, peeled)
}

pub fn vec_group_subrange_pub(v: &Vec<Vec<char>>, from: usize, to: usize) -> (out: Vec<Vec<char>>)
    requires
        from <= to <= v@.len(),
    ensures
        out@.map_values(|p: Vec<char>| p@) == v@.map_values(|p: Vec<char>| p@).subrange(
            from as int,
            to as int,
        ),
{
    let ghost sv = v@.map_values(|p: Vec<char>| p@);
    let mut out: Vec<Vec<char>> = Vec::new();
    let mut i: usize = from;
    proof {
        assert(out@.map_values(|p: Vec<char>| p@) =~= sv.subrange(from as int, from as int));
    }
    while i < to
        invariant
            from <= i <= to <= v@.len(),
            sv == v@.map_values(|p: Vec<char>| p@),
            out@.map_values(|p: Vec<char>| p@) == sv.subrange(from as int, i as int),
        decreases to - i,
    {
        let copy = vec_subrange(&v[i], 0, v[i].len());
        assert(copy@ =~= sv[i as int]);
        let ghost pre = out@;
        out.push(copy);
        proof {
            assert(out@.map_values(|p: Vec<char>| p@) =~= pre.map_values(|p: Vec<char>| p@).push(
                sv[i as int],
            ));
            assert(sv.subrange(from as int, i + 1) =~= sv.subrange(from as int, i as int).push(
                sv[i as int],
            ));
        }
        i += 1;
    }
    out
}

/// The main text cleaned: normalized, then stripped of trailing separators.
pub open spec fn spec_clean_main(main: Seq<char>) -> Seq<char> {
    trim_end_set(norm_ws(main), main_trim_set())
}

pub fn clean_main_text(main: &Vec<char>) -> (out: Vec<char>)
    ensures
        out@ == spec_clean_main(main@),
{
    let normed = normalize_chars(main);
    let set = main_trim_chars();
    trim_end_any(&normed, &set)
}

/// Split one dish line into its main text and a canonical trailing
/// parenthesized allergen suffix, or an empty suffix when no trailing or
/// inline allergen tokens qualify.
pub open spec fn spec_split_component_suffix(component: Seq<char>) -> (Seq<char>, Seq<char>) {
    let text = norm_ws(component);
    if text.len() == 0 {
        (Seq::<char>::empty(), Seq::<char>::empty())
    } else {
        let main1 = trim_ws(text);
        let e = spec_extract_trailing(main1);
        let il = spec_extract_inline(e.0);
        let main3 = if il.1.len() > 0 {
            il.0
        } else {
            e.0
        };
        let toks = spec_dedupe(il.1 + e.1, Seq::empty());
        let nmain = spec_clean_main(main3);
        if toks.len() == 0 {
            (nmain, Seq::<char>::empty())
        } else {
            (nmain, seq!['('] + join_sep(toks, ", "@) + seq![')'])
        }
    }
}

/// Split one component line into `(main_text, "(A, B, ...)")`; the suffix is
/// empty when no allergen tokens are found.
pub fn split_component_suffix(component: &str) -> (r: (String, String))
    ensures
        ({
            let s = spec_split_component_suffix(component@);
            r.0@ == s.0 && r.1@ == s.1
        }),
{
    let chars = str_to_chars(component);
    let text = normalize_chars(&chars);
    if text.len() == 0 {
        return (String::new(), String::new());
    }
    let main1 = trim_chars(&text);
    let (main2, group_toks) = extract_trailing_parenthesized_allergens(&main1);
    let (inline_main, inline_toks) = extract_inline_allergens(&main2);
    let main3 = if inline_toks.len() > 0 {
        assert(inline_toks@.map_values(|p: Vec<char>| p@).len() > 0);
        inline_main
    } else {
        assert(inline_toks@.map_values(|p: Vec<char>| p@).len() == 0);
        main2
    };
    let mut all_toks = inline_toks;
    let ghost il1 = all_toks@.map_values(|p: Vec<char>| p@);
    append_groups(&mut all_toks, &group_toks);
    let toks = dedupe_tokens(&all_toks);
    let nmain = clean_main_text(&main3);
    let main_str = chars_to_string(&nmain);
    if toks.len() == 0 {
        assert(toks@.map_values(|p: Vec<char>| p@).len() == 0);
        return (main_str, String::new());
    }
    assert(toks@.map_values(|p: Vec<char>| p@).len() > 0);
    let sep = str_to_chars(", ");
    let joined = join_with(&toks, &sep);
    let mut suffix: Vec<char> = Vec::new();
    suffix.push('(');
    push_chars(&mut suffix, &joined);
    suffix.push(')');
    proof {
        assert(suffix@ =~= seq!['('] + joined@ + seq![')']);
    }
    let suffix_str = chars_to_string(&suffix);
    (main_str, suffix_str)
}

fn push_chars(out: &mut Vec<char>, part: &Vec<char>)
    ensures
        final(out)@ == old(out)@ + part@,
{
    let mut k: usize = 0;
    while k < part.len()
        invariant
            k <= part@.len(),
            out@ == old(out)@ + part@.take(k as int),
        decreases part@.len() - k,
    {
        out.push(part[k]);
        assert(out@ =~= old(out)@ + part@.take(k + 1));
        k += 1;
    }
    assert(out@ =~= old(out)@ + part@);
}

} // verus!

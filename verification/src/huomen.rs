use vstd::prelude::*;

use crate::casefold::{to_upper, upper_of};
use crate::compass::lex_gt;
use crate::json::{
    jget, jget_bool, jget_bool_exec, jget_exec, json_of, localized_field, parse_json,
    spec_localized, JsonValue,
};
use crate::model::{FetchOutput, FetchOutputView, MenuGroup, MenuGroupView, TodayMenu,
    TodayMenuView};
use crate::restaurant::{Provider, Restaurant, RestaurantView};
use crate::text::{
    chars_to_string, join_sep, join_with, norm_ws, normalize_chars, push_all, str_eq,
    str_to_chars, vec_eq_str,
};

verus! {

/// The localized resolution of the value under `key`, or empty when the
/// field is missing.
pub open spec fn spec_localized_under(v: JsonValue, key: Seq<char>, lang: Seq<char>) -> Seq<char> {
    match jget(v, key) {
        Option::Some(x) => spec_localized(x, lang),
        Option::None => Seq::empty(),
    }
}

fn localized_under(v: &JsonValue, key: &str, lang: &str) -> (r: String)
    ensures
        r@ == spec_localized_under(*v, key@, lang@),
{
    localized_field(jget_exec(v, key), lang)
}

/// The canonical form of one third-party allergen abbreviation: `*` kept,
/// `VEG` becomes `Veg`, a short all-capital form is upper-cased, anything
/// else stays as normalized.
pub open spec fn spec_huomen_token(token: Seq<char>) -> Seq<char> {
    let clean = norm_ws(token);
    if clean.len() == 0 {
        Seq::empty()
    } else if clean == seq!['*'] {
        seq!['*']
    } else {
        let u = upper_of(clean);
        if u == "VEG"@ {
            "Veg"@
        } else if u.len() <= 8 && (forall|i: int|
            0 <= i < u.len() ==> crate::text::is_ascii_upper(#[trigger] u[i])) {
            u
        } else {
            clean
        }
    }
}

pub fn normalize_huomen_allergen_token(token: &Vec<char>) -> (out: Vec<char>)
    ensures
        out@ == spec_huomen_token(token@),
{
    let clean = normalize_chars(token);
    let empty: Vec<char> = Vec::new();
    assert(empty@ =~= Seq::<char>::empty());
    if clean.len() == 0 {
        return empty;
    }
    if clean.len() == 1 && clean[0] == '*' {
        assert(clean@ =~= seq!['*']);
        let mut star: Vec<char> = Vec::new();
        star.push('*');
        assert(star@ =~= seq!['*']);
        return star;
    }
    assert(clean@ != seq!['*']);
    let cs = chars_to_string(&clean);
    let us = to_upper(cs.as_str());
    let u = str_to_chars(us.as_str());
    if vec_eq_str(&u, "VEG") {
        return str_to_chars("Veg");
    }
    if u.len() <= 8 {
        let mut all_upper = true;
        let mut i: usize = 0;
        while i < u.len()
            invariant
                i <= u@.len(),
                all_upper == (forall|j: int|
                    0 <= j < i ==> crate::text::is_ascii_upper(#[trigger] u@[j])),
            decreases u@.len() - i,
        {
            let c = u[i];
            if !('A' <= c && c <= 'Z') {
                proof {
                    assert(!crate::text::is_ascii_upper(u@[i as int]));
                }
                all_upper = false;
            }
            i += 1;
        }
        if all_upper {
            return u;
        }
    }
    clean
}

/// The de-duplicated canonical allergen marks of one lunch entry, walking
/// the raw entries from `i` with the upper-cased keys already seen.
pub open spec fn spec_lunch_allergens(
    items: Seq<JsonValue>,
    i: int,
    lang: Seq<char>,
    seen: Seq<Seq<char>>,
) -> Seq<Seq<char>>
    decreases items.len() - i,
{
    if i < 0 || i >= items.len() {
        Seq::empty()
    } else {
        let tok = spec_huomen_token(spec_localized_under(items[i], "abbreviation"@, lang));
        if tok.len() == 0 {
            spec_lunch_allergens(items, i + 1, lang, seen)
        } else {
            let key = upper_of(tok);
            if seen.contains(key) {
                spec_lunch_allergens(items, i + 1, lang, seen)
            } else {
                seq![tok] + spec_lunch_allergens(items, i + 1, lang, seen.push(key))
            }
        }
    }
}

fn lunch_allergens(items: &Vec<JsonValue>, lang: &str) -> (out: Vec<Vec<char>>)
    ensures
        out@.map_values(|p: Vec<char>| p@) == spec_lunch_allergens(
            items@,
            0,
            lang@,
            Seq::empty(),
        ),
{
    let mut out: Vec<Vec<char>> = Vec::new();
    let mut seen: Vec<Vec<char>> = Vec::new();
    let mut i: usize = 0;
    proof {
        assert(out@.map_values(|p: Vec<char>| p@) =~= Seq::<Seq<char>>::empty());
        assert(seen@.map_values(|p: Vec<char>| p@) =~= Seq::<Seq<char>>::empty());
        assert(out@.map_values(|p: Vec<char>| p@) + spec_lunch_allergens(
            items@,
            0,
            lang@,
            seen@.map_values(|p: Vec<char>| p@),
        ) =~= spec_lunch_allergens(items@, 0, lang@, seen@.map_values(|p: Vec<char>| p@)));
    }
    while i < items.len()
        invariant
            i <= items@.len(),
            spec_lunch_allergens(items@, 0, lang@, Seq::empty()) == out@.map_values(
                |p: Vec<char>| p@,
            ) + spec_lunch_allergens(items@, i as int, lang@, seen@.map_values(|p: Vec<char>| p@)),
        decreases items@.len() - i,
    {
        let loc = localized_under(&items[i], "abbreviation", lang);
        let lc = str_to_chars(loc.as_str());
        let tok = normalize_huomen_allergen_token(&lc);
        if tok.len() == 0 {
            assert(tok@.len() == 0);
        } else {
            let ts = chars_to_string(&tok);
            let us = to_upper(ts.as_str());
            let key = str_to_chars(us.as_str());
            if crate::allergen::seen_contains_pub(&seen, &key) {
                // an equivalent mark was already taken
            } else {
                let ghost pre_out = out@;
                let ghost pre_seen = seen@;
                let ghost tv = tok@;
                out.push(tok);
                seen.push(key);
                proof {
                    let f = |p: Vec<char>| p@;
                    assert(out@.map_values(f) =~= pre_out.map_values(f).push(tv));
                    assert(pre_out.map_values(f).push(tv) =~= pre_out.map_values(f) + seq![tv]);
                    assert(seen@.map_values(f) =~= pre_seen.map_values(f).push(upper_of(tv)));
                    assert((pre_out.map_values(f) + seq![tv]) + spec_lunch_allergens(
                        items@,
                        i + 1,
                        lang@,
                        pre_seen.map_values(f).push(upper_of(tv)),
                    ) =~= pre_out.map_values(f) + (seq![tv] + spec_lunch_allergens(
                        items@,
                        i + 1,
                        lang@,
                        pre_seen.map_values(f).push(upper_of(tv)),
                    )));
                }
            }
        }
        i += 1;
    }
    proof {
        assert(out@.map_values(|p: Vec<char>| p@) + Seq::<Seq<char>>::empty() =~= out@.map_values(
            |p: Vec<char>| p@,
        ));
    }
    out
}

/// One lunch entry rendered: its localized title, " - description" when
/// the description differs, and the parenthesized de-duplicated allergen
/// marks; empty when there is no title.
pub open spec fn spec_lunch_line(lunch: JsonValue, lang: Seq<char>) -> Seq<char> {
    let title = spec_localized_under(lunch, "title"@, lang);
    if title.len() == 0 {
        Seq::empty()
    } else {
        let desc = spec_localized_under(lunch, "description"@, lang);
        let line = if desc.len() > 0 && desc != title {
            title + " - "@ + desc
        } else {
            title
        };
        let al = spec_lunch_allergens(
            match jget(lunch, "allergens"@) {
                Option::Some(JsonValue::List(it)) => it@,
                _ => Seq::empty(),
            },
            0,
            lang,
            Seq::empty(),
        );
        if al.len() > 0 {
            norm_ws(line + " ("@ + join_sep(al, ", "@) + seq![')'])
        } else {
            norm_ws(line)
        }
    }
}

pub fn huomen_lunch_line(lunch: &JsonValue, lang: &str) -> (out: Vec<char>)
    ensures
        out@ == spec_lunch_line(*lunch, lang@),
{
    let title = localized_under(lunch, "title", lang);
    let tc = str_to_chars(title.as_str());
    let empty: Vec<char> = Vec::new();
    assert(empty@ =~= Seq::<char>::empty());
    if tc.len() == 0 {
        return empty;
    }
    let desc = localized_under(lunch, "description", lang);
    let dc = str_to_chars(desc.as_str());
    let mut line: Vec<char> = Vec::new();
    push_all(&mut line, &tc);
    if dc.len() > 0 && !crate::allergen::vec_chars_eq(&dc, &tc) {
        push_all(&mut line, &str_to_chars(" - "));
        push_all(&mut line, &dc);
        proof {
            assert(line@ =~= tc@ + " - "@ + dc@);
        }
    } else {
        proof {
            assert(line@ =~= tc@);
        }
    }
    let al: Vec<Vec<char>> = match jget_exec(lunch, "allergens") {
        Some(x) => match x {
            JsonValue::List(it) => lunch_allergens(it, lang),
            _ => {
                let none: Vec<Vec<char>> = Vec::new();
                proof {
                    assert(none@.map_values(|p: Vec<char>| p@) =~= Seq::<Seq<char>>::empty());
                    assert(spec_lunch_allergens(Seq::empty(), 0, lang@, Seq::empty())
                        =~= Seq::<Seq<char>>::empty());
                }
                none
            },
        },
        None => {
            let none: Vec<Vec<char>> = Vec::new();
            proof {
                assert(none@.map_values(|p: Vec<char>| p@) =~= Seq::<Seq<char>>::empty());
                assert(spec_lunch_allergens(Seq::empty(), 0, lang@, Seq::empty())
                    =~= Seq::<Seq<char>>::empty());
            }
            none
        },
    };
    if al.len() > 0 {
        assert(al@.map_values(|p: Vec<char>| p@).len() > 0);
        let ghost base_line = line@;
        let sep = str_to_chars(", ");
        let joined = join_with(&al, &sep);
        push_all(&mut line, &str_to_chars(" ("));
        push_all(&mut line, &joined);
        line.push(')');
        proof {
            assert(line@ =~= base_line + " ("@ + joined@ + seq![')']);
        }
    } else {
        assert(al@.map_values(|p: Vec<char>| p@).len() == 0);
    }
    normalize_chars(&line)
}

/// The date text of one day entry.
pub open spec fn spec_huomen_day_date(day: JsonValue) -> Seq<char> {
    match jget(day, "dateString"@) {
        Option::Some(JsonValue::Text(t)) => norm_ws(t@),
        _ => Seq::empty(),
    }
}

fn huomen_day_date(day: &JsonValue) -> (out: Vec<char>)
    ensures
        out@ == spec_huomen_day_date(*day),
{
    match jget_exec(day, "dateString") {
        Some(x) => match x {
            JsonValue::Text(t) => {
                let c = str_to_chars(t.as_str());
                normalize_chars(&c)
            },
            _ => {
                let empty: Vec<char> = Vec::new();
                assert(empty@ =~= Seq::<char>::empty());
                empty
            },
        },
        None => {
            let empty: Vec<char> = Vec::new();
            assert(empty@ =~= Seq::<char>::empty());
            empty
        },
    }
}

/// Walk the day list: the day whose date equals `today`, and the greatest
/// date text seen (folded onto `fallback`).
pub open spec fn spec_huomen_day_scan(
    days: Seq<JsonValue>,
    i: int,
    today: Seq<char>,
    fallback: Seq<char>,
) -> (Option<int>, Seq<char>)
    decreases days.len() - i,
{
    if i < 0 || i >= days.len() {
        (None, fallback)
    } else {
        let dk = spec_huomen_day_date(days[i]);
        let fb2 = if dk.len() > 0 && (fallback.len() == 0 || lex_gt(dk, fallback)) {
            dk
        } else {
            fallback
        };
        if dk == today {
            (Some(i), fb2)
        } else {
            spec_huomen_day_scan(days, i + 1, today, fb2)
        }
    }
}

/// The non-empty rendered lunch lines of a day, in order.
pub open spec fn spec_lunch_lines(lunches: Seq<JsonValue>, i: int, lang: Seq<char>) -> Seq<
    Seq<char>,
>
    decreases lunches.len() - i,
{
    if i < 0 || i >= lunches.len() {
        Seq::empty()
    } else {
        let l = spec_lunch_line(lunches[i], lang);
        let rest = spec_lunch_lines(lunches, i + 1, lang);
        if l.len() > 0 {
            seq![l] + rest
        } else {
            rest
        }
    }
}

fn lunch_lines(lunches: &Vec<JsonValue>, lang: &str) -> (out: Vec<String>)
    ensures
        out@.map_values(|s: String| s@) == spec_lunch_lines(lunches@, 0, lang@),
{
    let mut out: Vec<String> = Vec::new();
    let mut i: usize = 0;
    proof {
        assert(out@.map_values(|s: String| s@) =~= Seq::<Seq<char>>::empty());
        assert(out@.map_values(|s: String| s@) + spec_lunch_lines(lunches@, 0, lang@)
            =~= spec_lunch_lines(lunches@, 0, lang@));
    }
    while i < lunches.len()
        invariant
            i <= lunches@.len(),
            spec_lunch_lines(lunches@, 0, lang@) == out@.map_values(|s: String| s@)
                + spec_lunch_lines(lunches@, i as int, lang@),
        decreases lunches@.len() - i,
    {
        let line = huomen_lunch_line(&lunches[i], lang);
        if line.len() > 0 {
            assert(line@.len() > 0);
            let ls = chars_to_string(&line);
            let ghost pre = out@;
            let ghost lv = line@;
            out.push(ls);
            proof {
                let f = |s: String| s@;
                assert(out@.map_values(f) =~= pre.map_values(f).push(lv));
                assert(pre.map_values(f).push(lv) =~= pre.map_values(f) + seq![lv]);
                assert((pre.map_values(f) + seq![lv]) + spec_lunch_lines(
                    lunches@,
                    i + 1,
                    lang@,
                ) =~= pre.map_values(f) + (seq![lv] + spec_lunch_lines(lunches@, i + 1, lang@)));
            }
        } else {
            assert(line@.len() == 0);
        }
        i += 1;
    }
    proof {
        assert(out@.map_values(|s: String| s@) + Seq::<Seq<char>>::empty() =~= out@.map_values(
            |s: String| s@,
        ));
    }
    out
}

/// The localized restaurant display name nested under the location object.
pub open spec fn spec_loc_name(v: JsonValue, lang: Seq<char>) -> Seq<char> {
    match jget(v, "data"@) {
        Option::Some(d) => match jget(d, "location"@) {
            Option::Some(l) => spec_localized_under(l, "name"@, lang),
            Option::None => Seq::empty(),
        },
        Option::None => Seq::empty(),
    }
}

/// The day list nested under `data.week.days`, when it is a list.
pub open spec fn spec_week_days(v: JsonValue) -> Option<Seq<JsonValue>> {
    match jget(v, "data"@) {
        Option::Some(d) => match jget(d, "week"@) {
            Option::Some(w) => match jget(w, "days"@) {
                Option::Some(JsonValue::List(ds)) => Some(ds@),
                _ => None,
            },
            Option::None => None,
        },
        Option::None => None,
    }
}

/// Parse one decoded third-party payload against the reference date
/// `today`: an explicit `success: false` is a provider error with its own
/// localized message; a missing day list is an error; the day whose date
/// equals `today` yields a menu only when it is not closed, and a group
/// with no lunch lines is excluded; the payload date is `today` whenever
/// a day matches, closed or not.
pub open spec fn spec_parse_huomen_value(
    v: JsonValue,
    rest: RestaurantView,
    lang: Seq<char>,
    today: Seq<char>,
    raw: Seq<char>,
) -> Result<FetchOutputView, Seq<char>> {
    if jget_bool(v, "success"@) == Some(false) {
        let msg = spec_localized_under(v, "message"@, lang);
        if msg.len() == 0 {
            Err("Huomen API returned an error"@)
        } else {
            Err(msg)
        }
    } else {
        match spec_week_days(v) {
            Option::None => Err("Missing week.days in Huomen payload"@),
            Option::Some(days) => {
                let scan = spec_huomen_day_scan(days, 0, today, Seq::empty());
                let closed = match scan.0 {
                    Option::Some(i) => jget_bool(days[i], "isClosed"@) == Some(true),
                    Option::None => false,
                };
                let lines = match scan.0 {
                    Option::Some(i) => if closed {
                        Seq::empty()
                    } else {
                        match jget(days[i], "lunches"@) {
                            Option::Some(JsonValue::List(ls)) => spec_lunch_lines(ls@, 0, lang),
                            _ => Seq::empty(),
                        }
                    },
                    Option::None => Seq::empty(),
                };
                let name0 = spec_loc_name(v, lang);
                let name = if name0.len() == 0 {
                    rest.name
                } else {
                    name0
                };
                Ok(
                    FetchOutputView {
                        ok: true,
                        error_message: Seq::empty(),
                        today_menu: match scan.0 {
                            Option::Some(_) => if closed {
                                None
                            } else {
                                Some(
                                    TodayMenuView {
                                        date_iso: today,
                                        lunch_time: Seq::empty(),
                                        menus: if lines.len() > 0 {
                                            seq![
                                                MenuGroupView {
                                                    name: if lang == "fi"@ {
                                                        "Lounas"@
                                                    } else {
                                                        "Lunch"@
                                                    },
                                                    price: Seq::empty(),
                                                    components: lines,
                                                },
                                            ]
                                        } else {
                                            Seq::empty()
                                        },
                                    },
                                )
                            },
                            Option::None => None,
                        },
                        restaurant_name: name,
                        restaurant_url: match rest.url {
                            Option::Some(u) => u,
                            Option::None => Seq::empty(),
                        },
                        provider: Provider::HuomenJson,
                        raw_json: raw,
                        payload_date: match scan.0 {
                            Option::Some(_) => today,
                            Option::None => scan.1,
                        },
                    },
                )
            },
        }
    }
}

/// Parse a raw third-party JSON payload for `today`.
pub fn parse_huomen_payload(
    text: &str,
    restaurant: &Restaurant,
    language: &str,
    today: &str,
) -> (r: Result<FetchOutput, String>)
    ensures
        match json_of(text@) {
            Option::None => r is Err,
            Option::Some(v) => match r {
                Ok(o) => spec_parse_huomen_value(v, restaurant@, language@, today@, text@)
                    == Ok::<FetchOutputView, Seq<char>>(o@),
                Err(e) => spec_parse_huomen_value(v, restaurant@, language@, today@, text@)
                    == Err::<FetchOutputView, Seq<char>>(e@),
            },
        },
{
    let v = match parse_json(text) {
        Ok(v) => v,
        Err(e) => {
            return Err(e);
        },
    };
    match jget_bool_exec(&v, "success") {
        Some(false) => {
            let msg = localized_under(&v, "message", language);
            if msg.as_str().unicode_len() == 0 {
                assert(msg@.len() == 0);
                return Err(String::from_str("Huomen API returned an error"));
            }
            assert(msg@.len() > 0);
            return Err(msg);
        },
        _ => {},
    }
    let days: &Vec<JsonValue> = match jget_exec(&v, "data") {
        Some(d) => match jget_exec(d, "week") {
            Some(w) => match jget_exec(w, "days") {
                Some(x) => match x {
                    JsonValue::List(ds) => ds,
                    _ => {
                        return Err(String::from_str("Missing week.days in Huomen payload"));
                    },
                },
                None => {
                    return Err(String::from_str("Missing week.days in Huomen payload"));
                },
            },
            None => {
                return Err(String::from_str("Missing week.days in Huomen payload"));
            },
        },
        None => {
            return Err(String::from_str("Missing week.days in Huomen payload"));
        },
    };
    let ghost sdays = days@;
    let today_chars = str_to_chars(today);
    let mut fallback: Vec<char> = Vec::new();
    let mut day_match: Option<usize> = None;
    let mut i: usize = 0;
    proof {
        assert(fallback@ =~= Seq::<char>::empty());
        assert(spec_week_days(v) == Some(sdays));
    }
    while i < days.len() && day_match.is_none()
        invariant
            i <= days@.len(),
            sdays == days@,
            today_chars@ == today@,
            spec_week_days(v) == Some(sdays),
            jget_bool(v, "success"@) != Some(false),
            match day_match {
                Option::Some(d) => d < days@.len() && spec_huomen_day_scan(
                    sdays,
                    0,
                    today@,
                    Seq::empty(),
                ).0 == Some(d as int),
                Option::None => spec_huomen_day_scan(sdays, 0, today@, Seq::empty())
                    == spec_huomen_day_scan(sdays, i as int, today@, fallback@),
            },
        decreases days@.len() - i + (if day_match is None { 1int } else { 0int }),
    {
        let dk = huomen_day_date(&days[i]);
        let is_better = dk.len() > 0 && (fallback.len() == 0 || crate::compass::lex_gt_chars(
            &dk,
            &fallback,
        ));
        let matched = crate::allergen::vec_chars_eq(&dk, &today_chars);
        if is_better {
            fallback = dk;
        }
        if matched {
            day_match = Some(i);
        } else {
            i += 1;
        }
    }
    let valid = match day_match {
        Some(_) => true,
        None => false,
    };
    let closed: bool = match day_match {
        Some(d) => match jget_bool_exec(&days[d], "isClosed") {
            Some(true) => true,
            _ => false,
        },
        None => false,
    };
    let lines: Vec<String> = match day_match {
        Some(d) => {
            if closed {
                let none: Vec<String> = Vec::new();
                proof {
                    assert(none@.map_values(|s: String| s@) =~= Seq::<Seq<char>>::empty());
                }
                none
            } else {
                match jget_exec(&days[d], "lunches") {
                    Some(x) => match x {
                        JsonValue::List(ls) => lunch_lines(ls, language),
                        _ => {
                            let none: Vec<String> = Vec::new();
                            proof {
                                assert(none@.map_values(|s: String| s@)
                                    =~= Seq::<Seq<char>>::empty());
                            }
                            none
                        },
                    },
                    None => {
                        let none: Vec<String> = Vec::new();
                        proof {
                            assert(none@.map_values(|s: String| s@) =~= Seq::<Seq<char>>::empty());
                        }
                        none
                    },
                }
            }
        },
        None => {
            let none: Vec<String> = Vec::new();
            proof {
                assert(none@.map_values(|s: String| s@) =~= Seq::<Seq<char>>::empty());
            }
            none
        },
    };
    let name0 = match jget_exec(&v, "data") {
        Some(d) => match jget_exec(d, "location") {
            Some(l) => localized_under(l, "name", language),
            None => String::new(),
        },
        None => String::new(),
    };
    let name: String = if name0.as_str().unicode_len() == 0 {
        assert(name0@.len() == 0);
        String::from_str(restaurant.name)
    } else {
        assert(name0@.len() > 0);
        name0
    };
    let url: String = match restaurant.url {
        Some(u) => String::from_str(u),
        None => String::new(),
    };
    let today_menu: Option<TodayMenu> = if valid && !closed {
        let mut menus: Vec<MenuGroup> = Vec::new();
        if lines.len() > 0 {
            proof {
                assert(lines@.map_values(|s: String| s@).len() > 0);
            }
            let group_name: String = if str_eq(language, "fi") {
                String::from_str("Lounas")
            } else {
                String::from_str("Lunch")
            };
            let group = MenuGroup { name: group_name, price: String::new(), components: lines };
            menus.push(group);
            proof {
                assert(menus@.map_values(|m: MenuGroup| m@) =~= seq![
                    menus@[0]@,
                ]);
            }
        } else {
            proof {
                assert(lines@.map_values(|s: String| s@).len() == 0);
                assert(menus@.map_values(|m: MenuGroup| m@) =~= Seq::<MenuGroupView>::empty());
            }
        }
        Some(
            TodayMenu {
                date_iso: String::from_str(today),
                lunch_time: String::new(),
                menus,
            },
        )
    } else {
        None
    };
    let payload_date: String = if valid {
        String::from_str(today)
    } else {
        chars_to_string(&fallback)
    };
    Ok(
        FetchOutput {
            ok: true,
            error_message: String::new(),
            today_menu,
            restaurant_name: name,
            restaurant_url: url,
            provider: Provider::HuomenJson,
            raw_json: String::from_str(text),
            payload_date,
        },
    )
}

} // verus!

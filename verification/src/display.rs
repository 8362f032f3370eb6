use vstd::prelude::*;

use crate::model::{MenuGroup, TodayMenu};
use crate::price::{spec_price_text_for_groups, price_text_for_groups, PriceGroups};
use crate::restaurant::Provider;
use crate::text::{
    chars_to_string, dec_digits, norm_ws, normalize_chars, normalize_text, parse_u32_chars,
    parse_u32_spec, split_char, split_char_vec, str_eq, str_to_chars, u32_to_chars, push_all,
};

verus! {

/// A zero-padded ISO date rendered for display: `d.m.yyyy` in Finnish,
/// `m/d/yyyy` otherwise; anything unparseable is returned normalized.
pub open spec fn spec_format_display_date(date_iso: Seq<char>, language: Seq<char>) -> Seq<char> {
    let iso = norm_ws(date_iso);
    let parts = split_char(iso, '-');
    if parts.len() != 3 {
        iso
    } else {
        match parse_u32_spec(parts[1]) {
            Option::None => iso,
            Option::Some(m) => match parse_u32_spec(parts[2]) {
                Option::None => iso,
                Option::Some(d) => if language == "fi"@ {
                    dec_digits(d as int) + seq!['.'] + dec_digits(m as int) + seq!['.'] + parts[0]
                } else {
                    dec_digits(m as int) + seq!['/'] + dec_digits(d as int) + seq!['/'] + parts[0]
                },
            },
        }
    }
}

/// Render an ISO date for the given language.
pub fn format_display_date(date_iso: &str, language: &str) -> (r: String)
    ensures
        r@ == spec_format_display_date(date_iso@, language@),
{
    let chars = str_to_chars(date_iso);
    let iso = normalize_chars(&chars);
    let parts = split_char_vec(&iso, '-');
    let ghost sparts = split_char(iso@, '-');
    proof {
        assert(parts@.map_values(|p: Vec<char>| p@).len() == sparts.len());
    }
    if parts.len() != 3 {
        return chars_to_string(&iso);
    }
    proof {
        assert(parts@[0]@ == sparts[0]);
        assert(parts@[1]@ == sparts[1]);
        assert(parts@[2]@ == sparts[2]);
    }
    let month = match parse_u32_chars(&parts[1]) {
        Some(m) => m,
        None => {
            return chars_to_string(&iso);
        },
    };
    let day = match parse_u32_chars(&parts[2]) {
        Some(d) => d,
        None => {
            return chars_to_string(&iso);
        },
    };
    let mut out: Vec<char> = Vec::new();
    if str_eq(language, "fi") {
        let dd = u32_to_chars(day);
        let mm = u32_to_chars(month);
        push_all(&mut out, &dd);
        out.push('.');
        push_all(&mut out, &mm);
        out.push('.');
        push_all(&mut out, &parts[0]);
        proof {
            assert(out@ =~= dec_digits(day as int) + seq!['.'] + dec_digits(month as int)
                + seq!['.'] + sparts[0]);
        }
    } else {
        let dd = u32_to_chars(day);
        let mm = u32_to_chars(month);
        push_all(&mut out, &mm);
        out.push('/');
        push_all(&mut out, &dd);
        out.push('/');
        push_all(&mut out, &parts[0]);
        proof {
            assert(out@ =~= dec_digits(month as int) + seq!['/'] + dec_digits(day as int)
                + seq!['/'] + sparts[0]);
        }
    }
    chars_to_string(&out)
}

/// The heading line above the menu: the display date followed by the lunch
/// time, either part omitted when empty.
pub open spec fn spec_date_and_time_line(
    menu: Option<crate::model::TodayMenuView>,
    language: Seq<char>,
) -> Seq<char> {
    match menu {
        Option::None => Seq::empty(),
        Option::Some(m) => {
            let date_part = spec_format_display_date(m.date_iso, language);
            let time_part = norm_ws(m.lunch_time);
            if date_part.len() > 0 && time_part.len() > 0 {
                date_part + seq![' '] + time_part
            } else if date_part.len() > 0 {
                date_part
            } else {
                time_part
            }
        },
    }
}

pub fn date_and_time_line(today_menu: Option<&TodayMenu>, language: &str) -> (r: String)
    ensures
        r@ == spec_date_and_time_line(
            match today_menu {
                Option::Some(m) => Some(m@),
                Option::None => None,
            },
            language@,
        ),
{
    let menu = match today_menu {
        Some(m) => m,
        None => {
            return String::new();
        },
    };
    let date_part = format_display_date(menu.date_iso.as_str(), language);
    let time_part = normalize_text(menu.lunch_time.as_str());
    let dp = str_to_chars(date_part.as_str());
    let tp = str_to_chars(time_part.as_str());
    if dp.len() > 0 && tp.len() > 0 {
        let mut out: Vec<char> = Vec::new();
        push_all(&mut out, &dp);
        out.push(' ');
        push_all(&mut out, &tp);
        proof {
            assert(out@ =~= dp@ + seq![' '] + tp@);
        }
        chars_to_string(&out)
    } else if dp.len() > 0 {
        date_part
    } else {
        time_part
    }
}

/// The fixed user-facing message for a key, localized to Finnish or the
/// default language; an unknown key is returned as it stands.
pub open spec fn spec_text_for(language: Seq<char>, key: Seq<char>) -> Seq<char> {
    if language == "fi"@ {
        if key == "loading"@ {
            "Ladataan ruokalistaa..."@
        } else if key == "noMenu"@ {
            "T\u{e4}lle p\u{e4}iv\u{e4}lle ei ole lounaslistaa."@
        } else if key == "stale"@ {
            "P\u{e4}ivitys ep\u{e4}onnistui. N\u{e4}ytet\u{e4}\u{e4}n viimeisin tallennettu lista."@
        } else if key == "staleNetwork"@ {
            "Ei verkkoyhteytt\u{e4}. N\u{e4}ytet\u{e4}\u{e4}n viimeisin tallennettu lista."@
        } else if key == "fetchError"@ {
            "P\u{e4}ivitysvirhe"@
        } else {
            key
        }
    } else {
        if key == "loading"@ {
            "Loading menu..."@
        } else if key == "noMenu"@ {
            "No lunch menu available for today."@
        } else if key == "stale"@ {
            "Update failed. Showing last cached menu."@
        } else if key == "staleNetwork"@ {
            "Offline. Showing last cached menu."@
        } else if key == "fetchError"@ {
            "Fetch error"@
        } else {
            key
        }
    }
}

pub fn text_for(language: &str, key: &str) -> (r: String)
    ensures
        r@ == spec_text_for(language@, key@),
{
    if str_eq(language, "fi") {
        if str_eq(key, "loading") {
            String::from_str("Ladataan ruokalistaa...")
        } else if str_eq(key, "noMenu") {
            String::from_str("T\u{e4}lle p\u{e4}iv\u{e4}lle ei ole lounaslistaa.")
        } else if str_eq(key, "stale") {
            String::from_str(
                "P\u{e4}ivitys ep\u{e4}onnistui. N\u{e4}ytet\u{e4}\u{e4}n viimeisin tallennettu lista.",
            )
        } else if str_eq(key, "staleNetwork") {
            String::from_str(
                "Ei verkkoyhteytt\u{e4}. N\u{e4}ytet\u{e4}\u{e4}n viimeisin tallennettu lista.",
            )
        } else if str_eq(key, "fetchError") {
            String::from_str("P\u{e4}ivitysvirhe")
        } else {
            String::from_str(key)
        }
    } else {
        if str_eq(key, "loading") {
            String::from_str("Loading menu...")
        } else if str_eq(key, "noMenu") {
            String::from_str("No lunch menu available for today.")
        } else if str_eq(key, "stale") {
            String::from_str("Update failed. Showing last cached menu.")
        } else if str_eq(key, "staleNetwork") {
            String::from_str("Offline. Showing last cached menu.")
        } else if str_eq(key, "fetchError") {
            String::from_str("Fetch error")
        } else {
            String::from_str(key)
        }
    }
}

/// The heading of one menu group: its normalized name (or "Menu"), with the
/// price appended when prices are shown; a day-feed price is first filtered
/// to the wanted price classes.
pub open spec fn spec_menu_heading(
    menu: crate::model::MenuGroupView,
    provider: Provider,
    show_prices: bool,
    groups: PriceGroups,
) -> Seq<char> {
    let heading = if norm_ws(menu.name).len() == 0 {
        "Menu"@
    } else {
        norm_ws(menu.name)
    };
    let price = norm_ws(menu.price);
    if show_prices && price.len() > 0 {
        if provider == Provider::Compass {
            let filtered = spec_price_text_for_groups(price, groups);
            if filtered.len() == 0 {
                heading
            } else {
                heading + " - "@ + filtered
            }
        } else {
            heading + " - "@ + price
        }
    } else {
        heading
    }
}

pub fn menu_heading(
    menu: &MenuGroup,
    provider: Provider,
    show_prices: bool,
    groups: PriceGroups,
) -> (r: String)
    ensures
        r@ == spec_menu_heading(menu@, provider, show_prices, groups),
{
    let name_chars = str_to_chars(menu.name.as_str());
    let normed_name = normalize_chars(&name_chars);
    let heading: Vec<char> = if normed_name.len() == 0 {
        str_to_chars("Menu")
    } else {
        normed_name
    };
    let price_chars = str_to_chars(menu.price.as_str());
    let price = normalize_chars(&price_chars);
    if show_prices && price.len() > 0 {
        if match provider {
            Provider::Compass => true,
            _ => false,
        } {
            let price_str = chars_to_string(&price);
            let filtered = price_text_for_groups(price_str.as_str(), groups);
            let fc = str_to_chars(filtered.as_str());
            if fc.len() == 0 {
                chars_to_string(&heading)
            } else {
                let mut out: Vec<char> = Vec::new();
                push_all(&mut out, &heading);
                push_all(&mut out, &str_to_chars(" - "));
                push_all(&mut out, &fc);
                proof {
                    assert(out@ =~= heading@ + " - "@ + fc@);
                }
                chars_to_string(&out)
            }
        } else {
            let mut out: Vec<char> = Vec::new();
            push_all(&mut out, &heading);
            push_all(&mut out, &str_to_chars(" - "));
            push_all(&mut out, &price);
            proof {
                assert(out@ =~= heading@ + " - "@ + price@);
            }
            chars_to_string(&out)
        }
    } else {
        chars_to_string(&heading)
    }
}

} // verus!

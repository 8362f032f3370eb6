use vstd::prelude::*;

use crate::antell::{parse_antell_html, spec_antell_menu};
use crate::compass::{
    api_response_of, parse_response, spec_api_response_of, spec_parse_response,
};
use crate::huomen::{parse_huomen_payload, spec_parse_huomen_value};
use crate::json::{json_of, parse_json};
use crate::model::{FetchOutput, FetchOutputView};
use crate::restaurant::{Provider, Restaurant, RestaurantView};
use crate::rss::{parse_compass_rss_payload, spec_parse_rss};
use crate::text::{
    chars_to_string, find_char, find_char_from, push_all, str_to_chars, trim_chars, trim_ws,
};

verus! {

/// The URL fetched for one catalog entry, or the configuration error when
/// the entry lacks the parameter its provider needs. The page-scrape URL
/// carries the caller-supplied day-of-week word.
pub open spec fn spec_fetch_url(
    rest: RestaurantView,
    language: Seq<char>,
    weekday: Seq<char>,
) -> Result<Seq<char>, Seq<char>> {
    match rest.provider {
        Provider::Compass => Ok(
            "https://www.compass-group.fi/menuapi/feed/json?costNumber="@ + rest.code
                + "&language="@ + language,
        ),
        Provider::CompassRss => {
            match rest.rss_cost_number {
                Option::Some(n) => {
                    if trim_ws(n).len() == 0 {
                        Err("Missing RSS cost number"@)
                    } else {
                        Ok(
                            "https://www.compass-group.fi/menuapi/feed/rss/current-day?costNumber="@
                                + trim_ws(n) + "&language="@ + language,
                        )
                    }
                },
                Option::None => Err("Missing RSS cost number"@),
            }
        },
        Provider::Antell => {
            match rest.antell_slug {
                Option::Some(slug) => Ok(
                    "https://antell.fi/lounas/kuopio/"@ + slug + "/?print_lunch_day="@ + weekday
                        + "&print_lunch_list_day=1"@,
                ),
                Option::None => Err("Missing Antell slug"@),
            }
        },
        Provider::HuomenJson => {
            match rest.huomen_api_base {
                Option::Some(base) => {
                    let b = trim_ws(base);
                    if b.len() == 0 {
                        Err("Missing Huomen API base URL"@)
                    } else {
                        let sep: Seq<char> = if find_char(b, '?') >= 0 {
                            "&"@
                        } else {
                            "?"@
                        };
                        Ok(b + sep + "language="@ + language)
                    }
                },
                Option::None => Err("Missing Huomen API base URL"@),
            }
        },
    }
}

/// Build the URL one fetch cycle will request.
pub fn provider_fetch_url(restaurant: &Restaurant, language: &str, weekday: &str) -> (r: Result<
    String,
    String,
>)
    ensures
        match r {
            Ok(u) => spec_fetch_url(restaurant@, language@, weekday@) == Ok::<
                Seq<char>,
                Seq<char>,
            >(u@),
            Err(e) => spec_fetch_url(restaurant@, language@, weekday@) == Err::<
                Seq<char>,
                Seq<char>,
            >(e@),
        },
{
    match restaurant.provider {
        Provider::Compass => {
            let mut out: Vec<char> = Vec::new();
            push_all(&mut out, &str_to_chars("https://www.compass-group.fi/menuapi/feed/json?costNumber="));
            push_all(&mut out, &str_to_chars(restaurant.code));
            push_all(&mut out, &str_to_chars("&language="));
            push_all(&mut out, &str_to_chars(language));
            proof {
                assert(out@ =~= "https://www.compass-group.fi/menuapi/feed/json?costNumber="@
                    + restaurant@.code + "&language="@ + language@);
            }
            Ok(chars_to_string(&out))
        },
        Provider::CompassRss => {
            match restaurant.rss_cost_number {
                Some(n) => {
                    let nc = str_to_chars(n);
                    let trimmed = trim_chars(&nc);
                    if trimmed.len() == 0 {
                        return Err(String::from_str("Missing RSS cost number"));
                    }
                    let mut out: Vec<char> = Vec::new();
                    push_all(
                        &mut out,
                        &str_to_chars(
                            "https://www.compass-group.fi/menuapi/feed/rss/current-day?costNumber=",
                        ),
                    );
                    push_all(&mut out, &trimmed);
                    push_all(&mut out, &str_to_chars("&language="));
                    push_all(&mut out, &str_to_chars(language));
                    proof {
                        assert(out@
                            =~= "https://www.compass-group.fi/menuapi/feed/rss/current-day?costNumber="@
                            + trim_ws(restaurant@.rss_cost_number->Some_0) + "&language="@
                            + language@);
                    }
                    Ok(chars_to_string(&out))
                },
                None => Err(String::from_str("Missing RSS cost number")),
            }
        },
        Provider::Antell => {
            match restaurant.antell_slug {
                Some(slug) => {
                    let mut out: Vec<char> = Vec::new();
                    push_all(&mut out, &str_to_chars("https://antell.fi/lounas/kuopio/"));
                    push_all(&mut out, &str_to_chars(slug));
                    push_all(&mut out, &str_to_chars("/?print_lunch_day="));
                    push_all(&mut out, &str_to_chars(weekday));
                    push_all(&mut out, &str_to_chars("&print_lunch_list_day=1"));
                    proof {
                        assert(out@ =~= "https://antell.fi/lounas/kuopio/"@
                            + restaurant@.antell_slug->Some_0 + "/?print_lunch_day="@ + weekday@
                            + "&print_lunch_list_day=1"@);
                    }
                    Ok(chars_to_string(&out))
                },
                None => Err(String::from_str("Missing Antell slug")),
            }
        },
        Provider::HuomenJson => {
            match restaurant.huomen_api_base {
                Some(base) => {
                    let bc = str_to_chars(base);
                    let b = trim_chars(&bc);
                    if b.len() == 0 {
                        return Err(String::from_str("Missing Huomen API base URL"));
                    }
                    proof {
                        assert(b@.skip(0) =~= b@);
                    }
                    let sep: &str = match find_char_from(&b, 0, '?') {
                        Some(_) => "&",
                        None => "?",
                    };
                    let mut out: Vec<char> = Vec::new();
                    push_all(&mut out, &b);
                    push_all(&mut out, &str_to_chars(sep));
                    push_all(&mut out, &str_to_chars("language="));
                    push_all(&mut out, &str_to_chars(language));
                    proof {
                        let bb = trim_ws(restaurant@.huomen_api_base->Some_0);
                        let ssep: Seq<char> = if find_char(bb, '?') >= 0 {
                            "&"@
                        } else {
                            "?"@
                        };
                        assert(out@ =~= bb + ssep + "language="@ + language@);
                    }
                    Ok(chars_to_string(&out))
                },
                None => Err(String::from_str("Missing Huomen API base URL")),
            }
        },
    }
}

/// What a successful transport response parses to, per provider, against
/// the reference date `today`: the day-feed and third-party parsers may
/// fail inside a well-formed response; the page scrape always succeeds and
/// dates its payload `today`.
pub fn outcome_from_response(
    restaurant: &Restaurant,
    language: &str,
    today: &str,
    text: &str,
) -> (r: FetchOutput)
    ensures
        match restaurant@.provider {
            Provider::Compass => ({
                let failed = r@.ok == false && r@.today_menu is None && r@.raw_json == text@
                    && r@.payload_date == Seq::<char>::empty() && r@.restaurant_name == Seq::<
                    char,
                >::empty() && r@.restaurant_url == Seq::<char>::empty() && r@.provider
                    == Provider::Compass;
                match json_of(text@) {
                    Option::None => failed,
                    Option::Some(v) => match spec_api_response_of(v) {
                        Option::None => failed,
                        Option::Some(api) => r@ == spec_parse_response(api, text@, today@),
                    },
                }
            }),
            Provider::CompassRss => r@ == spec_parse_rss(text@, restaurant@, language@, today@),
            Provider::Antell => r@ == FetchOutputView {
                ok: true,
                error_message: Seq::empty(),
                today_menu: Some(spec_antell_menu(text@, today@)),
                restaurant_name: restaurant@.name,
                restaurant_url: match restaurant@.url {
                    Option::Some(u) => u,
                    Option::None => Seq::empty(),
                },
                provider: Provider::Antell,
                raw_json: text@,
                payload_date: today@,
            },
            Provider::HuomenJson => ({
                let failed = r@.ok == false && r@.today_menu is None && r@.raw_json == text@
                    && r@.payload_date == Seq::<char>::empty() && r@.restaurant_name
                    == restaurant@.name && r@.provider == Provider::HuomenJson;
                match json_of(text@) {
                    Option::None => failed,
                    Option::Some(v) => match spec_parse_huomen_value(
                        v,
                        restaurant@,
                        language@,
                        today@,
                        text@,
                    ) {
                        Ok(o) => r@ == o,
                        Err(e) => failed && r@.error_message == e,
                    },
                }
            }),
        },
{
    match restaurant.provider {
        Provider::Compass => crate::compass::parse_compass_payload(text, today),
        Provider::CompassRss => parse_compass_rss_payload(text, restaurant, language, today),
        Provider::Antell => {
            let menu = parse_antell_html(text, today);
            FetchOutput {
                ok: true,
                error_message: String::new(),
                today_menu: Some(menu),
                restaurant_name: String::from_str(restaurant.name),
                restaurant_url: match restaurant.url {
                    Some(u) => String::from_str(u),
                    None => String::new(),
                },
                provider: Provider::Antell,
                raw_json: String::from_str(text),
                payload_date: String::from_str(today),
            }
        },
        Provider::HuomenJson => {
            match parse_huomen_payload(text, restaurant, language, today) {
                Ok(output) => output,
                Err(e) => FetchOutput {
                    ok: false,
                    error_message: e,
                    today_menu: None,
                    restaurant_name: String::from_str(restaurant.name),
                    restaurant_url: match restaurant.url {
                        Some(u) => String::from_str(u),
                        None => String::new(),
                    },
                    provider: Provider::HuomenJson,
                    raw_json: String::from_str(text),
                    payload_date: String::new(),
                },
            }
        },
    }
}

/// The outcome of a fetch cycle that failed before any payload was parsed
/// (transport or configuration); the day feed reports no identity, the
/// other providers fall back to the catalog entry's.
pub fn failure_outcome(restaurant: &Restaurant, error_message: String) -> (r: FetchOutput)
    ensures
        r@.ok == false,
        r@.error_message == error_message@,
        r@.today_menu is None,
        r@.raw_json == Seq::<char>::empty(),
        r@.payload_date == Seq::<char>::empty(),
        r@.provider == restaurant@.provider,
        r@.restaurant_name == match restaurant@.provider {
            Provider::Compass => Seq::<char>::empty(),
            _ => restaurant@.name,
        },
        r@.restaurant_url == match restaurant@.provider {
            Provider::Compass => Seq::<char>::empty(),
            _ => match restaurant@.url {
                Option::Some(u) => u,
                Option::None => Seq::<char>::empty(),
            },
        },
{
    let is_compass = match restaurant.provider {
        Provider::Compass => true,
        _ => false,
    };
    if is_compass {
        FetchOutput {
            ok: false,
            error_message,
            today_menu: None,
            restaurant_name: String::new(),
            restaurant_url: String::new(),
            provider: restaurant.provider,
            raw_json: String::new(),
            payload_date: String::new(),
        }
    } else {
        FetchOutput {
            ok: false,
            error_message,
            today_menu: None,
            restaurant_name: String::from_str(restaurant.name),
            restaurant_url: match restaurant.url {
                Some(u) => String::from_str(u),
                None => String::new(),
            },
            provider: restaurant.provider,
            raw_json: String::new(),
            payload_date: String::new(),
        }
    }
}

/// Re-parse a cached raw payload for `today`: the JSON providers surface
/// their decode errors; the page scrape always parses, with an empty
/// payload date (its freshness comes from the store time instead).
pub fn parse_cached_payload(
    raw_payload: &str,
    provider: Provider,
    restaurant: &Restaurant,
    language: &str,
    today: &str,
) -> (r: Result<FetchOutput, String>)
    ensures
        match provider {
            Provider::Compass => match json_of(raw_payload@) {
                Option::None => r is Err,
                Option::Some(v) => match spec_api_response_of(v) {
                    Option::None => r is Err,
                    Option::Some(api) => r matches Ok(o) && o@ == spec_parse_response(
                        api,
                        raw_payload@,
                        today@,
                    ),
                },
            },
            Provider::CompassRss => r matches Ok(o) && o@ == spec_parse_rss(
                raw_payload@,
                restaurant@,
                language@,
                today@,
            ),
            Provider::Antell => r matches Ok(o) && o@ == FetchOutputView {
                ok: true,
                error_message: Seq::empty(),
                today_menu: Some(spec_antell_menu(raw_payload@, today@)),
                restaurant_name: restaurant@.name,
                restaurant_url: match restaurant@.url {
                    Option::Some(u) => u,
                    Option::None => Seq::empty(),
                },
                provider: Provider::Antell,
                raw_json: raw_payload@,
                payload_date: Seq::<char>::empty(),
            },
            Provider::HuomenJson => match json_of(raw_payload@) {
                Option::None => r is Err,
                Option::Some(v) => match spec_parse_huomen_value(
                    v,
                    restaurant@,
                    language@,
                    today@,
                    raw_payload@,
                ) {
                    Ok(o) => r matches Ok(x) && x@ == o,
                    Err(e) => r matches Err(x) && x@ == e,
                },
            },
        },
{
    match provider {
        Provider::Compass => {
            let v = match parse_json(raw_payload) {
                Ok(v) => v,
                Err(e) => {
                    return Err(e);
                },
            };
            let api = match api_response_of(&v) {
                Ok(a) => a,
                Err(e) => {
                    return Err(e);
                },
            };
            Ok(parse_response(api, String::from_str(raw_payload), today))
        },
        Provider::CompassRss => Ok(
            parse_compass_rss_payload(raw_payload, restaurant, language, today),
        ),
        Provider::Antell => {
            let menu = parse_antell_html(raw_payload, today);
            Ok(
                FetchOutput {
                    ok: true,
                    error_message: String::new(),
                    today_menu: Some(menu),
                    restaurant_name: String::from_str(restaurant.name),
                    restaurant_url: match restaurant.url {
                        Some(u) => String::from_str(u),
                        None => String::new(),
                    },
                    provider: Provider::Antell,
                    raw_json: String::from_str(raw_payload),
                    payload_date: String::new(),
                },
            )
        },
        Provider::HuomenJson => parse_huomen_payload(raw_payload, restaurant, language, today),
    }
}

} // verus!

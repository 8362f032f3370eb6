use vstd::prelude::*;

verus! {

/// The four kinds of lunch-menu source.
#[derive(Debug, Clone, Copy, PartialEq, Eq, Structural)]
pub enum Provider {
    Compass,
    CompassRss,
    Antell,
    HuomenJson,
}

/// One catalog entry: a restaurant with its provider parameters.
#[derive(Debug, Clone, Copy)]
pub struct Restaurant {
    pub code: &'static str,
    pub name: &'static str,
    pub provider: Provider,
    pub antell_slug: Option<&'static str>,
    pub rss_cost_number: Option<&'static str>,
    pub huomen_api_base: Option<&'static str>,
    pub url: Option<&'static str>,
}

/// The mathematical value of one catalog entry.
pub struct RestaurantView {
    pub code: Seq<char>,
    pub name: Seq<char>,
    pub provider: Provider,
    pub antell_slug: Option<Seq<char>>,
    pub rss_cost_number: Option<Seq<char>>,
    pub huomen_api_base: Option<Seq<char>>,
    pub url: Option<Seq<char>>,
}

impl View for Restaurant {
    type V = RestaurantView;

    open spec fn view(&self) -> RestaurantView {
        RestaurantView {
            code: self.code@,
            name: self.name@,
            provider: self.provider,
            antell_slug: match self.antell_slug {
                Option::Some(s) => Some(s@),
                Option::None => None,
            },
            rss_cost_number: match self.rss_cost_number {
                Option::Some(s) => Some(s@),
                Option::None => None,
            },
            huomen_api_base: match self.huomen_api_base {
                Option::Some(s) => Some(s@),
                Option::None => None,
            },
            url: match self.url {
                Option::Some(s) => Some(s@),
                Option::None => None,
            },
        }
    }
}

/// The always-present part of the catalog, in cycle order.
pub open spec fn spec_core_catalog() -> Seq<RestaurantView> {
    seq![
        RestaurantView {
            code: "0437"@,
            name: "Snellmania"@,
            provider: Provider::Compass,
            antell_slug: None,
            rss_cost_number: None,
            huomen_api_base: None,
            url: None,
        },
        RestaurantView {
            code: "snellari-rss"@,
            name: "Cafe Snellari"@,
            provider: Provider::CompassRss,
            antell_slug: None,
            rss_cost_number: Some("4370"@),
            huomen_api_base: None,
            url: Some(
                "https://www.compass-group.fi/ravintolat-ja-ruokalistat/foodco/kaupungit/kuopio/cafe-snellari/"@,
            ),
        },
        RestaurantView {
            code: "0436"@,
            name: "Canthia"@,
            provider: Provider::Compass,
            antell_slug: None,
            rss_cost_number: None,
            huomen_api_base: None,
            url: None,
        },
        RestaurantView {
            code: "0439"@,
            name: "Tietoteknia"@,
            provider: Provider::Compass,
            antell_slug: None,
            rss_cost_number: None,
            huomen_api_base: None,
            url: None,
        },
        RestaurantView {
            code: "huomen-bioteknia"@,
            name: "Hyv\u{e4} Huomen Bioteknia"@,
            provider: Provider::HuomenJson,
            antell_slug: None,
            rss_cost_number: None,
            huomen_api_base: Some(
                "https://europe-west1-luncher-7cf76.cloudfunctions.net/api/v1/week/a96b7ccf-2c3d-432a-8504-971dbb6d55d3/active"@,
            ),
            url: Some("https://hyvahuomen.fi/bioteknia/"@),
        },
    ]
}

/// The optional catalog group, appended when the feature flag is on.
pub open spec fn spec_antell_catalog() -> Seq<RestaurantView> {
    seq![
        RestaurantView {
            code: "antell-round"@,
            name: "Antell Round"@,
            provider: Provider::Antell,
            antell_slug: Some("round"@),
            rss_cost_number: None,
            huomen_api_base: None,
            url: Some("https://antell.fi/lounas/kuopio/round/"@),
        },
        RestaurantView {
            code: "antell-highway"@,
            name: "Antell Highway"@,
            provider: Provider::Antell,
            antell_slug: Some("highway"@),
            rss_cost_number: None,
            huomen_api_base: None,
            url: Some("https://antell.fi/lounas/kuopio/highway/"@),
        },
    ]
}

/// The whole catalog for a given feature-flag setting, in cycle order.
pub open spec fn spec_catalog(enable_antell: bool) -> Seq<RestaurantView> {
    if enable_antell {
        spec_core_catalog() + spec_antell_catalog()
    } else {
        spec_core_catalog()
    }
}

fn core_restaurants() -> (r: Vec<Restaurant>)
    ensures
        r@.map_values(|x: Restaurant| x@) == spec_core_catalog(),
{
    let mut list: Vec<Restaurant> = Vec::new();
    list.push(
        Restaurant {
            code: "0437",
            name: "Snellmania",
            provider: Provider::Compass,
            antell_slug: None,
            rss_cost_number: None,
            huomen_api_base: None,
            url: None,
        },
    );
    list.push(
        Restaurant {
            code: "snellari-rss",
            name: "Cafe Snellari",
            provider: Provider::CompassRss,
            antell_slug: None,
            rss_cost_number: Some("4370"),
            huomen_api_base: None,
            url: Some(
                "https://www.compass-group.fi/ravintolat-ja-ruokalistat/foodco/kaupungit/kuopio/cafe-snellari/",
            ),
        },
    );
    list.push(
        Restaurant {
            code: "0436",
            name: "Canthia",
            provider: Provider::Compass,
            antell_slug: None,
            rss_cost_number: None,
            huomen_api_base: None,
            url: None,
        },
    );
    list.push(
        Restaurant {
            code: "0439",
            name: "Tietoteknia",
            provider: Provider::Compass,
            antell_slug: None,
            rss_cost_number: None,
            huomen_api_base: None,
            url: None,
        },
    );
    list.push(
        Restaurant {
            code: "huomen-bioteknia",
            name: "Hyv\u{e4} Huomen Bioteknia",
            provider: Provider::HuomenJson,
            antell_slug: None,
            rss_cost_number: None,
            huomen_api_base: Some(
                "https://europe-west1-luncher-7cf76.cloudfunctions.net/api/v1/week/a96b7ccf-2c3d-432a-8504-971dbb6d55d3/active",
            ),
            url: Some("https://hyvahuomen.fi/bioteknia/"),
        },
    );
    assert(list@.map_values(|x: Restaurant| x@) =~= spec_core_catalog());
    list
}

/// The catalog in its stable cycle order; the optional group is appended
/// when `enable_antell` is set.
pub fn available_restaurants(enable_antell: bool) -> (r: Vec<Restaurant>)
    ensures
        r@.map_values(|x: Restaurant| x@) == spec_catalog(enable_antell),
{
    let mut list = core_restaurants();
    if enable_antell {
        list.push(
            Restaurant {
                code: "antell-round",
                name: "Antell Round",
                provider: Provider::Antell,
                antell_slug: Some("round"),
                rss_cost_number: None,
                huomen_api_base: None,
                url: Some("https://antell.fi/lounas/kuopio/round/"),
            },
        );
        list.push(
            Restaurant {
                code: "antell-highway",
                name: "Antell Highway",
                provider: Provider::Antell,
                antell_slug: Some("highway"),
                rss_cost_number: None,
                huomen_api_base: None,
                url: Some("https://antell.fi/lounas/kuopio/highway/"),
            },
        );
        assert(list@.map_values(|x: Restaurant| x@) =~= spec_catalog(true));
    }
    list
}

/// The first catalog entry whose code is `code`, if any.
pub open spec fn spec_lookup_in(cat: Seq<RestaurantView>, code: Seq<char>) -> Option<
    RestaurantView,
>
    decreases cat.len(),
{
    if cat.len() == 0 {
        None
    } else if cat[0].code == code {
        Some(cat[0])
    } else {
        spec_lookup_in(cat.drop_first(), code)
    }
}

/// The catalog entry for `code`, with the fixed default entry as fallback.
pub open spec fn spec_restaurant_for_code(code: Seq<char>, enable_antell: bool) -> RestaurantView {
    match spec_lookup_in(spec_catalog(enable_antell), code) {
        Option::Some(r) => r,
        Option::None => spec_core_catalog()[0],
    }
}

/// Look a restaurant up by code; an unknown code falls back to the fixed
/// default restaurant and never errors.
pub fn restaurant_for_code(code: &str, enable_antell: bool) -> (r: Restaurant)
    ensures
        r@ == spec_restaurant_for_code(code@, enable_antell),
{
    let list = available_restaurants(enable_antell);
    let ghost cat = spec_catalog(enable_antell);
    let mut i: usize = 0;
    proof {
        assert(cat.skip(0) =~= cat);
    }
    while i < list.len()
        invariant
            i <= list@.len(),
            cat == spec_catalog(enable_antell),
            list@.map_values(|x: Restaurant| x@) == cat,
            spec_lookup_in(cat, code@) == spec_lookup_in(cat.skip(i as int), code@),
        decreases list@.len() - i,
    {
        proof {
            assert(cat.skip(i as int)[0] == cat[i as int]);
            assert(cat.skip(i as int).drop_first() =~= cat.skip(i + 1));
        }
        if crate::text::str_eq(list[i].code, code) {
            let r = list[i];
            proof {
                assert(r@ == cat[i as int]);
                assert(cat.skip(i as int)[0].code == code@);
                assert(spec_lookup_in(cat.skip(i as int), code@) == Some(cat[i as int]));
                assert(cat == spec_catalog(enable_antell));
                assert(spec_lookup_in(spec_catalog(enable_antell), code@) == Some(cat[i as int]));
                assert(spec_restaurant_for_code(code@, enable_antell) == cat[i as int]);
            }
            return r;
        }
        i += 1;
    }
    let fallback = core_restaurants();
    let r = fallback[0];
    assert(r@ == spec_core_catalog()[0]);
    r
}

/// The stable storage key word of each provider.
pub open spec fn spec_provider_key(p: Provider) -> Seq<char> {
    match p {
        Provider::Compass => "compass"@,
        Provider::CompassRss => "compass-rss"@,
        Provider::Antell => "antell"@,
        Provider::HuomenJson => "huomen-json"@,
    }
}

pub fn provider_key(provider: Provider) -> (r: &'static str)
    ensures
        r@ == spec_provider_key(provider),
{
    match provider {
        Provider::Compass => "compass",
        Provider::CompassRss => "compass-rss",
        Provider::Antell => "antell",
        Provider::HuomenJson => "huomen-json",
    }
}

/// Whether `code` belongs to the optional catalog group.
pub open spec fn spec_is_antell_code(code: Seq<char>) -> bool {
    code == "antell-round"@ || code == "antell-highway"@
}

pub fn is_antell_code(code: &str) -> (r: bool)
    ensures
        r == spec_is_antell_code(code@),
{
    crate::text::str_eq(code, "antell-round") || crate::text::str_eq(code, "antell-highway")
}

} // verus!

use vstd::prelude::*;

use crate::text::{str_eq, str_to_chars};
use crate::casefold::{lower_of, to_lower};

verus! {

/// The user-facing settings the core reads.
pub struct Settings {
    pub restaurant_code: String,
    pub language: String,
    pub refresh_minutes: u32,
    pub show_prices: bool,
    pub show_student_price: bool,
    pub show_staff_price: bool,
    pub show_guest_price: bool,
    pub hide_expensive_student_meals: bool,
    pub theme: String,
    pub show_allergens: bool,
    pub highlight_gluten_free: bool,
    pub highlight_veg: bool,
    pub highlight_lactose_free: bool,
    pub enable_antell_restaurants: bool,
    pub enable_logging: bool,
    pub last_updated_epoch_ms: i64,
}

pub struct SettingsView {
    pub restaurant_code: Seq<char>,
    pub language: Seq<char>,
    pub refresh_minutes: u32,
    pub show_prices: bool,
    pub show_student_price: bool,
    pub show_staff_price: bool,
    pub show_guest_price: bool,
    pub hide_expensive_student_meals: bool,
    pub theme: Seq<char>,
    pub show_allergens: bool,
    pub highlight_gluten_free: bool,
    pub highlight_veg: bool,
    pub highlight_lactose_free: bool,
    pub enable_antell_restaurants: bool,
    pub enable_logging: bool,
    pub last_updated_epoch_ms: i64,
}

impl View for Settings {
    type V = SettingsView;

    open spec fn view(&self) -> SettingsView {
        SettingsView {
            restaurant_code: self.restaurant_code@,
            language: self.language@,
            refresh_minutes: self.refresh_minutes,
            show_prices: self.show_prices,
            show_student_price: self.show_student_price,
            show_staff_price: self.show_staff_price,
            show_guest_price: self.show_guest_price,
            hide_expensive_student_meals: self.hide_expensive_student_meals,
            theme: self.theme@,
            show_allergens: self.show_allergens,
            highlight_gluten_free: self.highlight_gluten_free,
            highlight_veg: self.highlight_veg,
            highlight_lactose_free: self.highlight_lactose_free,
            enable_antell_restaurants: self.enable_antell_restaurants,
            enable_logging: self.enable_logging,
            last_updated_epoch_ms: self.last_updated_epoch_ms,
        }
    }
}

/// The fixed defaults.
pub open spec fn spec_default_settings() -> SettingsView {
    SettingsView {
        restaurant_code: "0437"@,
        language: "fi"@,
        refresh_minutes: 1440,
        show_prices: false,
        show_student_price: true,
        show_staff_price: true,
        show_guest_price: false,
        hide_expensive_student_meals: false,
        theme: "dark"@,
        show_allergens: true,
        highlight_gluten_free: false,
        highlight_veg: false,
        highlight_lactose_free: false,
        enable_antell_restaurants: true,
        enable_logging: false,
        last_updated_epoch_ms: 0,
    }
}

impl Default for Settings {
    fn default() -> (r: Settings)
        ensures
            r@ == spec_default_settings(),
    {
        Settings {
            restaurant_code: String::from_str("0437"),
            language: String::from_str("fi"),
            refresh_minutes: 1440,
            show_prices: false,
            show_student_price: true,
            show_staff_price: true,
            show_guest_price: false,
            hide_expensive_student_meals: false,
            theme: String::from_str("dark"),
            show_allergens: true,
            highlight_gluten_free: false,
            highlight_veg: false,
            highlight_lactose_free: false,
            enable_antell_restaurants: true,
            enable_logging: false,
            last_updated_epoch_ms: 0,
        }
    }
}

/// A theme word reduced to one of the known themes; anything else is the
/// dark theme.
pub open spec fn spec_normalize_theme(value: Seq<char>) -> Seq<char> {
    let lower = lower_of(value);
    if lower == "light"@ {
        "light"@
    } else if lower == "dark"@ {
        "dark"@
    } else if lower == "blue"@ {
        "blue"@
    } else if lower == "green"@ {
        "green"@
    } else {
        "dark"@
    }
}

pub fn normalize_theme(value: &str) -> (r: String)
    ensures
        r@ == spec_normalize_theme(value@),
{
    let lower = to_lower(value);
    if str_eq(lower.as_str(), "light") {
        String::from_str("light")
    } else if str_eq(lower.as_str(), "dark") {
        String::from_str("dark")
    } else if str_eq(lower.as_str(), "blue") {
        String::from_str("blue")
    } else if str_eq(lower.as_str(), "green") {
        String::from_str("green")
    } else {
        String::from_str("dark")
    }
}

/// The settings file as decoded from storage: every field optional, with
/// two legacy spellings kept readable.
pub struct RawSettings {
    pub restaurant_code: Option<String>,
    pub language: Option<String>,
    pub refresh_minutes: Option<u32>,
    pub show_prices: Option<bool>,
    pub show_student_price: Option<bool>,
    pub show_staff_price: Option<bool>,
    pub show_guest_price: Option<bool>,
    pub hide_expensive_student_meals: Option<bool>,
    pub theme: Option<String>,
    pub dark_mode: Option<bool>,
    pub show_allergens: Option<bool>,
    pub hide_allergens: Option<bool>,
    pub highlight_gluten_free: Option<bool>,
    pub highlight_veg: Option<bool>,
    pub highlight_lactose_free: Option<bool>,
    pub enable_logging: Option<bool>,
    pub last_updated_epoch_ms: Option<i64>,
}

pub open spec fn opt_or<A>(o: Option<A>, d: A) -> A {
    match o {
        Option::Some(x) => x,
        Option::None => d,
    }
}

pub open spec fn opt_str_or(o: Option<Seq<char>>, d: Seq<char>) -> Seq<char> {
    match o {
        Option::Some(x) => x,
        Option::None => d,
    }
}

pub open spec fn raw_opt_view(o: Option<String>) -> Option<Seq<char>> {
    match o {
        Option::Some(s) => Some(s@),
        Option::None => None,
    }
}

/// Missing fields fall back to the defaults; `hide_allergens` is the
/// legacy negation of `show_allergens`; `dark_mode` is the legacy theme
/// switch; the optional restaurant group is always on.
pub open spec fn spec_settings_from_raw(r: RawSettings) -> SettingsView {
    let d = spec_default_settings();
    let show_allergens = match r.show_allergens {
        Option::Some(v) => v,
        Option::None => match r.hide_allergens {
            Option::Some(h) => !h,
            Option::None => d.show_allergens,
        },
    };
    let theme = match r.theme {
        Option::Some(ref t) => spec_normalize_theme(t@),
        Option::None => match r.dark_mode {
            Option::Some(dark) => if dark {
                "dark"@
            } else {
                "light"@
            },
            Option::None => d.theme,
        },
    };
    SettingsView {
        restaurant_code: opt_str_or(raw_opt_view(r.restaurant_code), d.restaurant_code),
        language: opt_str_or(raw_opt_view(r.language), d.language),
        refresh_minutes: opt_or(r.refresh_minutes, d.refresh_minutes),
        show_prices: opt_or(r.show_prices, d.show_prices),
        show_student_price: opt_or(r.show_student_price, d.show_student_price),
        show_staff_price: opt_or(r.show_staff_price, d.show_staff_price),
        show_guest_price: opt_or(r.show_guest_price, d.show_guest_price),
        hide_expensive_student_meals: opt_or(
            r.hide_expensive_student_meals,
            d.hide_expensive_student_meals,
        ),
        theme,
        show_allergens,
        highlight_gluten_free: opt_or(r.highlight_gluten_free, d.highlight_gluten_free),
        highlight_veg: opt_or(r.highlight_veg, d.highlight_veg),
        highlight_lactose_free: opt_or(r.highlight_lactose_free, d.highlight_lactose_free),
        enable_antell_restaurants: true,
        enable_logging: opt_or(r.enable_logging, d.enable_logging),
        last_updated_epoch_ms: opt_or(r.last_updated_epoch_ms, d.last_updated_epoch_ms),
    }
}

/// Merge decoded raw settings with the defaults.
#[verifier::rlimit(60)]
pub fn settings_from_raw(raw: RawSettings) -> (r: Settings)
    ensures
        r@ == spec_settings_from_raw(raw),
{
    let d = Settings::default();
    let show_allergens = match raw.show_allergens {
        Some(v) => v,
        None => match raw.hide_allergens {
            Some(h) => !h,
            None => d.show_allergens,
        },
    };
    let theme: String = match &raw.theme {
        Some(t) => normalize_theme(t.as_str()),
        None => match raw.dark_mode {
            Some(dark) => if dark {
                String::from_str("dark")
            } else {
                String::from_str("light")
            },
            None => d.theme,
        },
    };
    Settings {
        restaurant_code: match raw.restaurant_code {
            Some(s) => s,
            None => d.restaurant_code,
        },
        language: match raw.language {
            Some(s) => s,
            None => d.language,
        },
        refresh_minutes: match raw.refresh_minutes {
            Some(v) => v,
            None => d.refresh_minutes,
        },
        show_prices: match raw.show_prices {
            Some(v) => v,
            None => d.show_prices,
        },
        show_student_price: match raw.show_student_price {
            Some(v) => v,
            None => d.show_student_price,
        },
        show_staff_price: match raw.show_staff_price {
            Some(v) => v,
            None => d.show_staff_price,
        },
        show_guest_price: match raw.show_guest_price {
            Some(v) => v,
            None => d.show_guest_price,
        },
        hide_expensive_student_meals: match raw.hide_expensive_student_meals {
            Some(v) => v,
            None => d.hide_expensive_student_meals,
        },
        theme,
        show_allergens,
        highlight_gluten_free: match raw.highlight_gluten_free {
            Some(v) => v,
            None => d.highlight_gluten_free,
        },
        highlight_veg: match raw.highlight_veg {
            Some(v) => v,
            None => d.highlight_veg,
        },
        highlight_lactose_free: match raw.highlight_lactose_free {
            Some(v) => v,
            None => d.highlight_lactose_free,
        },
        enable_antell_restaurants: true,
        enable_logging: match raw.enable_logging {
            Some(v) => v,
            None => d.enable_logging,
        },
        last_updated_epoch_ms: match raw.last_updated_epoch_ms {
            Some(v) => v,
            None => d.last_updated_epoch_ms,
        },
    }
}

/// The settings directory under a given application-data base directory.
pub open spec fn spec_settings_dir(base: Seq<char>) -> Seq<char> {
    base + seq!['/'] + "compass-lunch"@
}

pub fn settings_dir(base: &str) -> (r: String)
    ensures
        r@ == spec_settings_dir(base@),
{
    let mut out: Vec<char> = Vec::new();
    crate::text::push_all(&mut out, &str_to_chars(base));
    out.push('/');
    crate::text::push_all(&mut out, &str_to_chars("compass-lunch"));
    proof {
        assert(out@ =~= spec_settings_dir(base@));
    }
    crate::text::chars_to_string(&out)
}

/// The settings file path under a given application-data base directory.
pub open spec fn spec_settings_path(base: Seq<char>) -> Seq<char> {
    spec_settings_dir(base) + seq!['/'] + "settings.json"@
}

pub fn settings_path(base: &str) -> (r: String)
    ensures
        r@ == spec_settings_path(base@),
{
    let dir = settings_dir(base);
    let mut out: Vec<char> = Vec::new();
    crate::text::push_all(&mut out, &str_to_chars(dir.as_str()));
    out.push('/');
    crate::text::push_all(&mut out, &str_to_chars("settings.json"));
    proof {
        assert(out@ =~= spec_settings_path(base@));
    }
    crate::text::chars_to_string(&out)
}

/// A field-for-field copy of the settings.
pub fn copy_settings(s: &Settings) -> (r: Settings)
    ensures
        r@ == s@,
{
    Settings {
        restaurant_code: String::from_str(s.restaurant_code.as_str()),
        language: String::from_str(s.language.as_str()),
        refresh_minutes: s.refresh_minutes,
        show_prices: s.show_prices,
        show_student_price: s.show_student_price,
        show_staff_price: s.show_staff_price,
        show_guest_price: s.show_guest_price,
        hide_expensive_student_meals: s.hide_expensive_student_meals,
        theme: String::from_str(s.theme.as_str()),
        show_allergens: s.show_allergens,
        highlight_gluten_free: s.highlight_gluten_free,
        highlight_veg: s.highlight_veg,
        highlight_lactose_free: s.highlight_lactose_free,
        enable_antell_restaurants: s.enable_antell_restaurants,
        enable_logging: s.enable_logging,
        last_updated_epoch_ms: s.last_updated_epoch_ms,
    }
}

} // verus!

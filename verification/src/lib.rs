use vstd::prelude::*;

pub mod allergen;
pub mod antell;
pub mod cache;
pub mod casefold;
pub mod compass;
pub mod controller;
pub mod display;
pub mod fetch;
pub mod huomen;
pub mod json;
pub mod model;
pub mod price;
pub mod render;
pub mod restaurant;
pub mod rss;
pub mod settings;
pub mod text;

pub use allergen::split_component_suffix;
pub use antell::parse_antell_html;
pub use cache::{cache_filename, cache_path, legacy_cache_filename, sanitize_key_segment,
    PayloadCache};
pub use compass::{normalize_menus, parse_compass_payload, parse_response};
pub use controller::{
    is_probable_network_error, App, AppState, FetchApplyOutcome, FetchMessage, FetchStatus,
    local_date_key_of_epoch_ms,
};
pub use display::{date_and_time_line, format_display_date, menu_heading, text_for};
pub use fetch::{failure_outcome, outcome_from_response, parse_cached_payload, provider_fetch_url};
pub use huomen::parse_huomen_payload;
pub use json::{localized_field, parse_json, JsonValue};
pub use model::{ApiMenuDay, ApiResponse, ApiSetMenu, FetchOutput, MenuGroup, TodayMenu};
pub use price::{price_text_for_groups, student_price_cents, PriceGroups};
pub use render::{build_lines, build_suffix_segments, flatten_text_with_suffix, header_title,
    is_today_valid_cache, popup_state_from_cached_result, HeaderButtonAction, Line};
pub use restaurant::{
    available_restaurants, is_antell_code, provider_key, restaurant_for_code, Provider, Restaurant,
};
pub use rss::parse_compass_rss_payload;
pub use settings::{normalize_theme, settings_dir, settings_path, Settings};
pub use text::{normalize_optional, normalize_text};

verus! {

} // verus!

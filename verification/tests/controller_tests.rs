use compass_lunch::cache_filename;
use compass_lunch::cache_path;
use compass_lunch::controller::local_date_key_of_epoch_ms;
use compass_lunch::date_and_time_line;
use compass_lunch::format_display_date;
use compass_lunch::is_probable_network_error;
use compass_lunch::legacy_cache_filename;
use compass_lunch::menu_heading;
use compass_lunch::model::{FetchOutput, MenuGroup, TodayMenu};
use compass_lunch::normalize_theme;
use compass_lunch::price_text_for_groups;
use compass_lunch::provider_fetch_url;
use compass_lunch::provider_key;
use compass_lunch::restaurant_for_code;
use compass_lunch::sanitize_key_segment;
use compass_lunch::settings_path;
use compass_lunch::student_price_cents;
use compass_lunch::text_for;
use compass_lunch::App;
use compass_lunch::FetchApplyOutcome;
use compass_lunch::FetchMessage;
use compass_lunch::FetchStatus;
use compass_lunch::PayloadCache;
use compass_lunch::PriceGroups;
use compass_lunch::Provider;
use compass_lunch::Restaurant;
use compass_lunch::Settings;

#[test]
fn price_string_segments_into_student_and_staff() {
    let price = "Opiskelija 3,95 / Henkil\u{f6}kunta 7,50";
    assert_eq!(student_price_cents(price), Some(395));
    let student_only = PriceGroups { student: true, staff: false, guest: false };
    assert_eq!(price_text_for_groups(price, student_only), "Opiskelija 3,95");
    let staff_only = PriceGroups { student: false, staff: true, guest: false };
    assert_eq!(price_text_for_groups(price, staff_only), "Henkil\u{f6}kunta 7,50");
}

#[test]
fn price_without_slash_splits_at_label_words() {
    let price = "Opiskelija 3,95 Henkil\u{f6}kunta 7,50";
    let both = PriceGroups { student: true, staff: true, guest: false };
    assert_eq!(
        price_text_for_groups(price, both),
        "Opiskelija 3,95 / Henkil\u{f6}kunta 7,50"
    );
    assert_eq!(student_price_cents("Opiskelijat 3,95"), None);
    assert_eq!(student_price_cents("10,90"), None);
    let guest_only = PriceGroups { student: false, staff: false, guest: true };
    assert_eq!(price_text_for_groups("10,90", guest_only), "10,90");
}

#[test]
fn cache_round_trip_returns_the_payload_unchanged() {
    let mut cache = PayloadCache::new();
    cache.write(Provider::Compass, "0437", "fi", "{\"payload\": 1}", 1000);
    let read = cache.read(Provider::Compass, "0437", "fi");
    assert_eq!(read.map(|s| s.as_str()), Some("{\"payload\": 1}"));
    assert_eq!(cache.mtime_ms(Provider::Compass, "0437", "fi"), Some(1000));
    assert!(cache.read(Provider::Compass, "0436", "fi").is_none());
    assert!(cache.read(Provider::CompassRss, "0437", "fi").is_none());
    cache.write(Provider::Compass, "0437", "fi", "v2", 2000);
    assert_eq!(cache.read(Provider::Compass, "0437", "fi").map(|s| s.as_str()), Some("v2"));
    assert_eq!(cache.mtime_ms(Provider::Compass, "0437", "fi"), Some(2000));
}

#[test]
fn concurrent_refreshes_for_one_code_dispatch_once() {
    let mut app = App::new(Settings::default());
    assert!(app.start_refresh_for_code("0437", true, 10));
    assert!(!app.start_refresh_for_code("0437", true, 20));
    assert!(app.start_refresh_for_code("0436", false, 30));
}

#[test]
fn retry_backoff_runs_ten_thirty_sixty_then_five_minutes() {
    let mut app = App::new(Settings::default());
    assert_eq!(app.next_retry_delay_ms(), 10_000);
    assert_eq!(app.next_retry_delay_ms(), 30_000);
    assert_eq!(app.next_retry_delay_ms(), 60_000);
    assert_eq!(app.next_retry_delay_ms(), 300_000);
    assert_eq!(app.next_retry_delay_ms(), 300_000);
    app.reset_retry_backoff();
    assert_eq!(app.next_retry_delay_ms(), 10_000);
}

fn ok_result(code: &str, date: &str) -> FetchOutput {
    FetchOutput {
        ok: true,
        error_message: String::new(),
        today_menu: Some(TodayMenu {
            date_iso: String::from(date),
            lunch_time: String::new(),
            menus: vec![MenuGroup {
                name: String::from("Lounas"),
                price: String::new(),
                components: vec![String::from("Keitto")],
            }],
        }),
        restaurant_name: String::from("Snellmania"),
        restaurant_url: String::new(),
        provider: restaurant_for_code(code, true).provider,
        raw_json: String::from("{}"),
        payload_date: String::from(date),
    }
}

#[test]
fn applying_a_result_for_the_selected_restaurant_updates_the_display() {
    let mut app = App::new(Settings::default());
    assert!(app.start_refresh_for_code("0437", true, 10));
    assert_eq!(app.state.status, FetchStatus::Loading);
    let message = FetchMessage {
        requested_code: String::from("0437"),
        requested_language: String::from("fi"),
        result: ok_result("0437", "2024-11-13"),
    };
    let outcome = app.apply_fetch_message(message, 99, "2024-11-13");
    assert_eq!(outcome, FetchApplyOutcome::CurrentSuccess);
    assert_eq!(app.state.status, FetchStatus::Okay);
    assert!(!app.state.stale_date);
    assert_eq!(app.state.payload_date, "2024-11-13");
    assert_eq!(app.cache.read(Provider::Compass, "0437", "fi").map(|s| s.as_str()), Some("{}"));
    // the code is out of the in-flight set again
    assert!(app.start_refresh_for_code("0437", true, 100));
}

#[test]
fn a_background_result_touches_only_the_cache() {
    let mut app = App::new(Settings::default());
    assert!(app.start_refresh_for_code("0436", false, 10));
    let message = FetchMessage {
        requested_code: String::from("0436"),
        requested_language: String::from("fi"),
        result: ok_result("0436", "2024-11-13"),
    };
    let outcome = app.apply_fetch_message(message, 99, "2024-11-13");
    assert_eq!(outcome, FetchApplyOutcome::BackgroundSuccess);
    assert_eq!(app.state.status, FetchStatus::Idle);
    assert!(app.state.today_menu.is_none());
    assert!(app.cache.read(Provider::Compass, "0436", "fi").is_some());
}

#[test]
fn a_failure_is_stale_with_a_payload_and_error_without_one() {
    let mut app = App::new(Settings::default());
    assert!(app.start_refresh_for_code("0437", true, 10));
    let fail = FetchMessage {
        requested_code: String::from("0437"),
        requested_language: String::from("fi"),
        result: FetchOutput {
            ok: false,
            error_message: String::from("connection refused"),
            today_menu: None,
            restaurant_name: String::new(),
            restaurant_url: String::new(),
            provider: Provider::Compass,
            raw_json: String::new(),
            payload_date: String::new(),
        },
    };
    let outcome = app.apply_fetch_message(fail, 99, "2024-11-13");
    assert_eq!(outcome, FetchApplyOutcome::CurrentFailure);
    assert_eq!(app.state.status, FetchStatus::Error);
    assert!(!app.state.stale_network_error);

    // now with a payload already shown, a failure only goes stale
    assert!(app.start_refresh_for_code("0437", true, 100));
    let ok = FetchMessage {
        requested_code: String::from("0437"),
        requested_language: String::from("fi"),
        result: ok_result("0437", "2024-11-13"),
    };
    app.apply_fetch_message(ok, 200, "2024-11-13");
    assert!(app.start_refresh_for_code("0437", true, 300));
    let fail2 = FetchMessage {
        requested_code: String::from("0437"),
        requested_language: String::from("fi"),
        result: FetchOutput {
            ok: false,
            error_message: String::from("dns lookup failed"),
            today_menu: None,
            restaurant_name: String::new(),
            restaurant_url: String::new(),
            provider: Provider::Compass,
            raw_json: String::new(),
            payload_date: String::new(),
        },
    };
    let outcome2 = app.apply_fetch_message(fail2, 400, "2024-11-13");
    assert_eq!(outcome2, FetchApplyOutcome::CurrentFailure);
    assert_eq!(app.state.status, FetchStatus::Stale);
    assert!(app.state.stale_network_error);
    assert!(app.state.today_menu.is_some());
}

#[test]
fn stale_date_check_marks_a_mismatching_payload_date() {
    let mut app = App::new(Settings::default());
    assert!(!app.check_stale_date("2024-11-13"));
    let ok = FetchMessage {
        requested_code: String::from("0437"),
        requested_language: String::from("fi"),
        result: ok_result("0437", "2024-11-13"),
    };
    app.start_refresh_for_code("0437", true, 10);
    app.apply_fetch_message(ok, 20, "2024-11-13");
    assert!(!app.check_stale_date("2024-11-13"));
    assert!(app.check_stale_date("2024-11-14"));
    assert!(app.state.stale_date);
}

#[test]
fn cached_payload_loads_back_into_the_display() {
    let mut app = App::new(Settings::default());
    assert!(!app.load_cache_for_current("2024-11-13"));
    let payload = r#"{"RestaurantName": "Snellmania", "MenusForDays": [
        {"Date": "2024-11-13", "LunchTime": "11-14", "SetMenus": [
            {"Name": "Lounas", "Components": ["Keitto A"]}]}]}"#;
    app.cache.write(Provider::Compass, "0437", "fi", payload, 50);
    assert!(app.load_cache_for_current("2024-11-13"));
    assert_eq!(app.state.status, FetchStatus::Okay);
    assert_eq!(app.state.payload_date, "2024-11-13");
    assert_eq!(app.state.restaurant_name, "Snellmania");

    app.cache.write(Provider::Compass, "0437", "fi", "{ broken", 60);
    assert!(!app.load_cache_for_current("2024-11-13"));
    assert_eq!(app.state.status, FetchStatus::Error);
}

#[test]
fn refresh_on_selection_asks_for_missing_or_old_cache_entries() {
    let mut app = App::new(Settings::default());
    assert!(app.maybe_refresh_on_selection(0));
    app.cache.write(Provider::Compass, "0437", "fi", "{}", 1_000_000);
    // default interval is 1440 minutes
    assert!(!app.maybe_refresh_on_selection(1_000_000 + 60_000));
    assert!(app.maybe_refresh_on_selection(1_000_000 + 1440i64 * 60_000));
    app.set_refresh_minutes(0);
    assert!(!app.maybe_refresh_on_selection(i64::MAX));
}

#[test]
fn prefetch_sweep_is_rate_limited_and_skips_the_selected_code() {
    let mut app = App::new(Settings::default());
    let first = app.prefetch_candidates(10 * 60_000, "2024-11-13");
    assert!(first.len() >= 6);
    assert!(!first.iter().any(|c| c == "0437"));
    let again = app.prefetch_candidates(10 * 60_000 + 1, "2024-11-13");
    assert_eq!(again.len(), 0);
}

#[test]
fn selection_changes_reset_the_display() {
    let mut app = App::new(Settings::default());
    app.set_restaurant("snellari-rss");
    assert_eq!(app.state.settings.restaurant_code, "snellari-rss");
    assert_eq!(app.state.provider, Provider::CompassRss);
    assert_eq!(app.state.status, FetchStatus::Idle);
    app.cycle_restaurant(1);
    assert_eq!(app.state.settings.restaurant_code, "0436");
    app.cycle_restaurant(-1);
    assert_eq!(app.state.settings.restaurant_code, "snellari-rss");
    app.set_language("en");
    assert_eq!(app.state.settings.language, "en");
}

#[test]
fn the_antell_toggle_falls_back_off_its_own_restaurants() {
    let mut app = App::new(Settings::default());
    app.set_restaurant("antell-round");
    assert_eq!(app.state.provider, Provider::Antell);
    app.toggle_enable_antell();
    assert!(!app.state.settings.enable_antell_restaurants);
    assert_eq!(app.state.settings.restaurant_code, "0437");
    assert_eq!(app.state.provider, Provider::Compass);
}

#[test]
fn network_errors_are_told_apart_from_provider_errors() {
    assert!(is_probable_network_error("Connection timed out (os error 110)"));
    assert!(is_probable_network_error("TLS handshake failed"));
    assert!(!is_probable_network_error("missing field RestaurantName"));
}

#[test]
fn fetch_urls_carry_the_provider_parameters() {
    let compass = restaurant_for_code("0437", true);
    assert_eq!(
        provider_fetch_url(&compass, "fi", "wednesday").unwrap(),
        "https://www.compass-group.fi/menuapi/feed/json?costNumber=0437&language=fi"
    );
    let rss = restaurant_for_code("snellari-rss", true);
    assert_eq!(
        provider_fetch_url(&rss, "en", "wednesday").unwrap(),
        "https://www.compass-group.fi/menuapi/feed/rss/current-day?costNumber=4370&language=en"
    );
    let antell = restaurant_for_code("antell-round", true);
    assert_eq!(
        provider_fetch_url(&antell, "fi", "wednesday").unwrap(),
        "https://antell.fi/lounas/kuopio/round/?print_lunch_day=wednesday&print_lunch_list_day=1"
    );
    let huomen = restaurant_for_code("huomen-bioteknia", true);
    let url = provider_fetch_url(&huomen, "fi", "wednesday").unwrap();
    assert!(url.ends_with("?language=fi"));
}

#[test]
fn missing_provider_parameters_are_configuration_errors() {
    let no_slug = Restaurant {
        code: "x",
        name: "X",
        provider: Provider::Antell,
        antell_slug: None,
        rss_cost_number: None,
        huomen_api_base: None,
        url: None,
    };
    assert_eq!(provider_fetch_url(&no_slug, "fi", "monday").unwrap_err(), "Missing Antell slug");
    let blank_rss = Restaurant {
        code: "x",
        name: "X",
        provider: Provider::CompassRss,
        antell_slug: None,
        rss_cost_number: Some("   "),
        huomen_api_base: None,
        url: None,
    };
    assert_eq!(
        provider_fetch_url(&blank_rss, "fi", "monday").unwrap_err(),
        "Missing RSS cost number"
    );
    let no_base = Restaurant {
        code: "x",
        name: "X",
        provider: Provider::HuomenJson,
        antell_slug: None,
        rss_cost_number: None,
        huomen_api_base: None,
        url: None,
    };
    assert_eq!(
        provider_fetch_url(&no_base, "fi", "monday").unwrap_err(),
        "Missing Huomen API base URL"
    );
}

#[test]
fn cache_names_are_sanitized_only_on_the_canonical_scheme() {
    assert_eq!(sanitize_key_segment("a/b c.d-e_f"), "a_b_c.d-e_f");
    assert_eq!(cache_filename(Provider::Compass, "04/37", "fi"), "compass__04_37__fi.json");
    assert_eq!(
        legacy_cache_filename(Provider::CompassRss, "snellari-rss", "fi"),
        "compass-rss|snellari-rss|fi.xml"
    );
    assert_eq!(
        cache_path("/tmp/base", Provider::Antell, "antell-round", "en"),
        "/tmp/base/antell__antell-round__en.html"
    );
    assert_eq!(provider_key(Provider::HuomenJson), "huomen-json");
    assert_eq!(settings_path("/tmp/base"), "/tmp/base/compass-lunch/settings.json");
}

#[test]
fn display_strings_follow_the_language_and_date_format() {
    assert_eq!(format_display_date("2024-11-03", "fi"), "3.11.2024");
    assert_eq!(format_display_date("2024-11-03", "en"), "11/3/2024");
    assert_eq!(format_display_date("not-a-date", "fi"), "not-a-date");
    let menu = TodayMenu {
        date_iso: String::from("2024-11-03"),
        lunch_time: String::from("11-14"),
        menus: vec![],
    };
    assert_eq!(date_and_time_line(Some(&menu), "fi"), "3.11.2024 11-14");
    assert_eq!(date_and_time_line(None, "fi"), "");
    assert_eq!(text_for("fi", "loading"), "Ladataan ruokalistaa...");
    assert_eq!(text_for("en", "noMenu"), "No lunch menu available for today.");
    assert_eq!(text_for("en", "somethingElse"), "somethingElse");
    assert_eq!(normalize_theme("LIGHT"), "light");
    assert_eq!(normalize_theme("purple"), "dark");
}

#[test]
fn menu_heading_filters_day_feed_prices_by_class() {
    let group = MenuGroup {
        name: String::from("  Lounas  "),
        price: String::from("Opiskelija 3,95 / Vieras 8,00"),
        components: vec![],
    };
    let student_only = PriceGroups { student: true, staff: false, guest: false };
    assert_eq!(
        menu_heading(&group, Provider::Compass, true, student_only),
        "Lounas - Opiskelija 3,95"
    );
    assert_eq!(menu_heading(&group, Provider::Compass, false, student_only), "Lounas");
    let unnamed = MenuGroup { name: String::new(), price: String::new(), components: vec![] };
    assert_eq!(menu_heading(&unnamed, Provider::Compass, true, student_only), "Menu");
    assert_eq!(
        menu_heading(&group, Provider::Antell, true, student_only),
        "Lounas - Opiskelija 3,95 / Vieras 8,00"
    );
}

#[test]
fn epoch_conversion_rejects_non_positive_instants() {
    assert!(local_date_key_of_epoch_ms(0).is_none());
    assert!(local_date_key_of_epoch_ms(-5).is_none());
    if let Some(d) = local_date_key_of_epoch_ms(1_700_000_000_000) {
        assert_eq!(d.len(), 10);
    }
}

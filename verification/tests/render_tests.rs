use compass_lunch::build_lines;
use compass_lunch::is_today_valid_cache;
use compass_lunch::popup_state_from_cached_result;
use compass_lunch::restaurant_for_code;
use compass_lunch::Provider;
use compass_lunch::build_suffix_segments;
use compass_lunch::flatten_text_with_suffix;
use compass_lunch::header_title;
use compass_lunch::model::{MenuGroup, TodayMenu};
use compass_lunch::render::Line;
use compass_lunch::App;
use compass_lunch::FetchStatus;
use compass_lunch::Settings;

fn line_text(l: &Line) -> String {
    match l {
        Line::Heading(s) => format!("H:{}", s),
        Line::Text(s) => format!("T:{}", s),
        Line::TextWithSuffixSegments { main, segments } => {
            format!("S:{}", flatten_text_with_suffix(main, segments))
        },
        Line::Spacer => String::from("-"),
    }
}

#[test]
fn suffix_segments_highlight_the_chosen_marks() {
    let segs = build_suffix_segments("(A, G, Veg)", true, true, false);
    let parts: Vec<(String, bool)> = segs;
    let rendered: Vec<(String, bool)> = parts;
    let expected = vec![
        (String::from("("), false),
        (String::from("A"), false),
        (String::from(", "), false),
        (String::from("G"), true),
        (String::from(", "), false),
        (String::from("Veg"), true),
        (String::from(")"), false),
    ];
    assert_eq!(rendered, expected);
    let flat = flatten_text_with_suffix("Tofu  curry ", &expected);
    assert_eq!(flat, "Tofu curry(A, G, Veg)");
}

fn shown_state(menu: Option<TodayMenu>) -> App {
    let mut app = App::new(Settings::default());
    app.state.status = FetchStatus::Okay;
    app.state.today_menu = menu;
    app.state.payload_date = String::from("2024-11-13");
    app
}

#[test]
fn lines_show_the_menu_groups_with_bullets() {
    let menu = TodayMenu {
        date_iso: String::from("2024-11-13"),
        lunch_time: String::from("11-14"),
        menus: vec![MenuGroup {
            name: String::from("Lounas"),
            price: String::new(),
            components: vec![String::from("Tofu curry (A, G)"), String::from("  ")],
        }],
    };
    let app = shown_state(Some(menu));
    let lines = build_lines(&app.state, 0);
    let texts: Vec<String> = lines.iter().map(line_text).collect();
    assert_eq!(
        texts,
        vec![
            String::from("H:13.11.2024 11-14"),
            String::from("H:Lounas"),
            String::from("S:\u{25b8} Tofu curry(A, G)"),
        ]
    );
}

#[test]
fn lines_mark_stale_data_and_missing_menus() {
    let mut app = shown_state(None);
    app.state.stale_date = true;
    app.state.status = FetchStatus::Stale;
    app.state.stale_network_error = true;
    app.state.error_message = String::from("timed out");
    let lines = build_lines(&app.state, 0);
    let texts: Vec<String> = lines.iter().map(line_text).collect();
    assert_eq!(
        texts,
        vec![
            String::from("H:[STALE]"),
            String::from("T:T\u{e4}lle p\u{e4}iv\u{e4}lle ei ole lounaslistaa."),
            String::from("-"),
            String::from(
                "T:Ei verkkoyhteytt\u{e4}. N\u{e4}ytet\u{e4}\u{e4}n viimeisin tallennettu lista.",
            ),
            String::from("T:P\u{e4}ivitysvirhe: timed out"),
        ]
    );
}

#[test]
fn expensive_student_meals_can_be_hidden_for_the_day_feed() {
    let menu = TodayMenu {
        date_iso: String::from("2024-11-13"),
        lunch_time: String::new(),
        menus: vec![
            MenuGroup {
                name: String::from("Halpa"),
                price: String::from("Opiskelija 3,95"),
                components: vec![String::from("Keitto")],
            },
            MenuGroup {
                name: String::from("Kallis"),
                price: String::from("Opiskelija 7,50"),
                components: vec![String::from("Pihvi")],
            },
        ],
    };
    let mut app = shown_state(Some(menu));
    app.state.settings.hide_expensive_student_meals = true;
    app.state.settings.show_allergens = false;
    let lines = build_lines(&app.state, 0);
    let texts: Vec<String> = lines.iter().map(line_text).collect();
    assert_eq!(
        texts,
        vec![
            String::from("H:13.11.2024"),
            String::from("H:Halpa"),
            String::from("T:\u{25b8} Keitto"),
        ]
    );
}

#[test]
fn loading_shows_a_hint_only_after_a_delay() {
    let mut app = App::new(Settings::default());
    app.state.status = FetchStatus::Loading;
    app.state.loading_started_epoch_ms = 1000;
    let early = build_lines(&app.state, 1100);
    assert_eq!(early.len(), 0);
    let late = build_lines(&app.state, 1300);
    let texts: Vec<String> = late.iter().map(line_text).collect();
    assert_eq!(texts, vec![String::from("T:Ladataan ruokalistaa...")]);
}

#[test]
fn the_header_counts_through_the_catalog() {
    let app = App::new(Settings::default());
    assert_eq!(header_title(&app.state), "Snellmania (1/7)");
    let mut narrowed = App::new(Settings::default());
    narrowed.toggle_enable_antell();
    narrowed.set_restaurant("0439");
    assert_eq!(header_title(&narrowed.state), "Tietoteknia (4/5)");
}

#[test]
fn cache_freshness_follows_the_provider_date_source() {
    let rest = restaurant_for_code("0437", true);
    let parsed = compass_lunch::parse_compass_payload(
        r#"{"MenusForDays": [{"Date": "2024-11-13", "SetMenus": []}]}"#,
        "2024-11-13",
    );
    assert!(is_today_valid_cache(&parsed, Provider::Compass, None, "2024-11-13"));
    assert!(!is_today_valid_cache(&parsed, Provider::Compass, None, "2024-11-14"));
    let d = String::from("2024-11-13");
    assert!(is_today_valid_cache(&parsed, Provider::Antell, Some(&d), "2024-11-13"));
    assert!(!is_today_valid_cache(&parsed, Provider::Antell, None, "2024-11-13"));

    let st = popup_state_from_cached_result(&Settings::default(), &rest, &parsed, "2024-11-14");
    assert_eq!(st.status, FetchStatus::Okay);
    assert!(st.stale_date);
    assert_eq!(st.restaurant_name, "Snellmania");
}

use compass_lunch::json::JsonValue;
use compass_lunch::localized_field;
use compass_lunch::model::ApiSetMenu;
use compass_lunch::normalize_menus;
use compass_lunch::parse_antell_html;
use compass_lunch::parse_compass_payload;
use compass_lunch::parse_compass_rss_payload;
use compass_lunch::parse_huomen_payload;
use compass_lunch::restaurant_for_code;
use compass_lunch::rss::parse_rss_menu_date_iso;

fn chars(s: &str) -> Vec<char> {
    s.chars().collect()
}

fn text_of(v: Vec<char>) -> String {
    v.into_iter().collect()
}

#[test]
fn rss_date_is_parsed_and_validated() {
    assert_eq!(text_of(parse_rss_menu_date_iso(&chars("13.11.2024"))), "2024-11-13");
    assert_eq!(text_of(parse_rss_menu_date_iso(&chars("32.11.2024"))), "");
    assert_eq!(text_of(parse_rss_menu_date_iso(&chars("13.13.2024"))), "");
    assert_eq!(text_of(parse_rss_menu_date_iso(&chars("Lounaslista 5/3/24"))), "2024-03-05");
    assert_eq!(text_of(parse_rss_menu_date_iso(&chars("29.2.2023"))), "");
    assert_eq!(text_of(parse_rss_menu_date_iso(&chars("29.2.2024"))), "2024-02-29");
    assert_eq!(text_of(parse_rss_menu_date_iso(&chars("no date here"))), "");
}

#[test]
fn localized_field_prefers_requested_language_then_fallbacks() {
    let v = JsonValue::Object(vec![
        (String::from("fi"), JsonValue::Text(String::from("Lounas"))),
        (String::from("en"), JsonValue::Text(String::from("Lunch"))),
    ]);
    assert_eq!(localized_field(Some(&v), "en"), "Lunch");
    assert_eq!(localized_field(Some(&v), "sv"), "Lounas");
    assert_eq!(localized_field(None, "fi"), "");
    let plain = JsonValue::Text(String::from("  Kala  keitto "));
    assert_eq!(localized_field(Some(&plain), "fi"), "Kala keitto");
}

#[test]
fn day_feed_picks_today_and_tracks_greatest_date() {
    let payload = r#"{
        "RestaurantName": "Snellmania",
        "RestaurantUrl": "https://example.invalid/menu",
        "ErrorText": null,
        "MenusForDays": [
            {"Date": "2024-11-12T00:00:00", "LunchTime": "10:30-14",
             "SetMenus": [{"SortOrder": 1, "Name": "Lounas", "Price": "",
                           "Components": ["Keitto A"]}]},
            {"Date": "2024-11-13T00:00:00", "LunchTime": "11-14",
             "SetMenus": [{"SortOrder": 1, "Name": "Kasvislounas", "Price": "",
                           "Components": ["Tofu curry A, ILM, L, Veg", "  "]}]}
        ]
    }"#;
    let out = parse_compass_payload(payload, "2024-11-13");
    assert!(out.ok);
    assert_eq!(out.payload_date, "2024-11-13");
    let menu = out.today_menu.expect("a menu for the matching day");
    assert_eq!(menu.date_iso, "2024-11-13");
    assert_eq!(menu.lunch_time, "11-14");
    assert_eq!(menu.menus.len(), 1);
    assert_eq!(menu.menus[0].name, "Kasvislounas");
    assert_eq!(menu.menus[0].components, vec![String::from("Tofu curry A, ILM, L, Veg")]);

    let miss = parse_compass_payload(payload, "2024-11-20");
    assert!(miss.ok);
    assert!(miss.today_menu.is_none());
    assert_eq!(miss.payload_date, "2024-11-13");
}

#[test]
fn day_feed_error_text_is_a_provider_error() {
    let payload = r#"{"RestaurantName": "X", "ErrorText": " feed  down ", "MenusForDays": []}"#;
    let out = parse_compass_payload(payload, "2024-11-13");
    assert!(!out.ok);
    assert_eq!(out.error_message, "feed down");
    assert!(out.today_menu.is_none());
}

#[test]
fn day_feed_decode_failure_is_an_error_outcome() {
    let out = parse_compass_payload("{ not json", "2024-11-13");
    assert!(!out.ok);
    assert!(!out.error_message.is_empty());
    assert_eq!(out.raw_json, "{ not json");
}

#[test]
fn sub_menus_reorder_only_when_a_sort_order_is_present() {
    let mk = |sort_order: Option<i32>, name: &str| ApiSetMenu {
        sort_order,
        name: Some(String::from(name)),
        price: None,
        components: Some(vec![String::from("x")]),
    };
    let sorted = normalize_menus(&vec![mk(None, "first"), mk(Some(2), "second"), mk(Some(1), "third")]);
    let names: Vec<&str> = sorted.iter().map(|g| g.name.as_str()).collect();
    assert_eq!(names, vec!["first", "third", "second"]);

    let unsorted = normalize_menus(&vec![mk(None, "a"), mk(None, "b"), mk(None, "c")]);
    let names2: Vec<&str> = unsorted.iter().map(|g| g.name.as_str()).collect();
    assert_eq!(names2, vec!["a", "b", "c"]);
}

#[test]
fn rss_payload_builds_a_menu_only_for_today() {
    let rest = restaurant_for_code("snellari-rss", true);
    let xml = "<rss><channel><title>Cafe Snellari</title><item>\
               <title>Lounaslista 13.11.2024</title>\
               <link>https://example.invalid/rss</link>\
               <description>&lt;p&gt;Kana &amp;amp; riisi A, L&lt;/p&gt;\
               &lt;p&gt;Juusto, edam&lt;/p&gt;</description>\
               </item></channel></rss>";
    let out = parse_compass_rss_payload(xml, &rest, "fi", "2024-11-13");
    assert!(out.ok);
    assert_eq!(out.payload_date, "2024-11-13");
    assert_eq!(out.restaurant_name, "Cafe Snellari");
    assert_eq!(out.restaurant_url, "https://example.invalid/rss");
    let menu = out.today_menu.expect("today's entry");
    assert_eq!(menu.menus.len(), 1);
    assert_eq!(menu.menus[0].name, "Lounas");
    assert_eq!(
        menu.menus[0].components,
        vec![String::from("Kana & riisi (A, L)"), String::from("Juusto, edam")]
    );

    let other = parse_compass_rss_payload(xml, &rest, "fi", "2024-11-14");
    assert!(other.today_menu.is_none());
    assert_eq!(other.payload_date, "2024-11-13");
}

#[test]
fn huomen_payload_renders_lunches_with_deduplicated_marks() {
    let rest = restaurant_for_code("huomen-bioteknia", true);
    let payload = r#"{
        "success": true,
        "data": {
            "location": {"name": {"fi": "Bioteknia", "en": "Bioteknia EN"}},
            "week": {"days": [
                {"dateString": "2024-11-12", "isClosed": false, "lunches": []},
                {"dateString": "2024-11-13", "isClosed": false, "lunches": [
                    {"title": {"fi": "Kalakeitto"},
                     "description": {"fi": "Kalakeitto"},
                     "allergens": [{"abbreviation": "veg"}, {"abbreviation": "VEG"},
                                   {"abbreviation": "g"}]},
                    {"title": {"en": "Beef"}, "description": {"en": "Slow cooked"},
                     "allergens": []}
                ]}
            ]}
        }
    }"#;
    let out = parse_huomen_payload(payload, &rest, "fi", "2024-11-13").expect("parses");
    assert!(out.ok);
    assert_eq!(out.restaurant_name, "Bioteknia");
    assert_eq!(out.payload_date, "2024-11-13");
    let menu = out.today_menu.expect("today's entry");
    assert_eq!(
        menu.menus[0].components,
        vec![
            String::from("Kalakeitto (Veg, G)"),
            String::from("Beef - Slow cooked"),
        ]
    );
}

#[test]
fn huomen_success_false_surfaces_the_localized_message() {
    let rest = restaurant_for_code("huomen-bioteknia", true);
    let payload = r#"{"success": false, "message": {"fi": "Huolto", "en": "Maintenance"}}"#;
    match parse_huomen_payload(payload, &rest, "en", "2024-11-13") {
        Err(e) => assert_eq!(e, "Maintenance"),
        Ok(_) => panic!("a provider error was expected"),
    }
    let bare = r#"{"success": false}"#;
    match parse_huomen_payload(bare, &rest, "en", "2024-11-13") {
        Err(e) => assert_eq!(e, "Huomen API returned an error"),
        Ok(_) => panic!("a provider error was expected"),
    }
    let missing = r#"{"success": true, "data": {}}"#;
    match parse_huomen_payload(missing, &rest, "en", "2024-11-13") {
        Err(e) => assert_eq!(e, "Missing week.days in Huomen payload"),
        Ok(_) => panic!("a provider error was expected"),
    }
}

#[test]
fn huomen_closed_day_yields_no_menu_but_dates_the_payload() {
    let rest = restaurant_for_code("huomen-bioteknia", true);
    let payload = r#"{
        "success": true,
        "data": {"week": {"days": [
            {"dateString": "2024-11-13", "isClosed": true, "lunches": [
                {"title": "Kala"}
            ]}
        ]}}
    }"#;
    let out = parse_huomen_payload(payload, &rest, "fi", "2024-11-13").expect("parses");
    assert!(out.today_menu.is_none());
    assert_eq!(out.payload_date, "2024-11-13");
}

#[test]
fn huomen_open_day_without_lunches_has_no_groups() {
    let rest = restaurant_for_code("huomen-bioteknia", true);
    let payload = r#"{
        "success": true,
        "data": {"week": {"days": [
            {"dateString": "2024-11-13", "isClosed": false, "lunches": []}
        ]}}
    }"#;
    let out = parse_huomen_payload(payload, &rest, "fi", "2024-11-13").expect("parses");
    let menu = out.today_menu.expect("today's entry");
    assert_eq!(menu.menus.len(), 0);
}

#[test]
fn groups_without_components_are_excluded() {
    let payload = r#"{"MenusForDays": [
        {"Date": "2024-11-13", "SetMenus": [
            {"Name": "Tyhja", "Components": ["  ", ""]},
            {"Name": "Lounas", "Components": ["Keitto"]}
        ]}
    ]}"#;
    let out = parse_compass_payload(payload, "2024-11-13");
    let menu = out.today_menu.expect("today's entry");
    assert_eq!(menu.menus.len(), 1);
    assert_eq!(menu.menus[0].name, "Lounas");
}

#[test]
fn rss_today_entry_with_an_empty_description_has_no_groups() {
    let rest = restaurant_for_code("snellari-rss", true);
    let xml = "<rss><channel><item>\
               <title>13.11.2024</title>\
               <description></description>\
               </item></channel></rss>";
    let out = parse_compass_rss_payload(xml, &rest, "fi", "2024-11-13");
    let menu = out.today_menu.expect("today's entry");
    assert_eq!(menu.menus.len(), 0);
}

#[test]
fn scraped_page_keeps_only_sections_with_items() {
    let html = "<html><body>\
        <section class=\"menu-section\">\
          <h2 class=\"menu-title\">Lounas</h2>\
          <h2 class=\"menu-price\">10,90</h2>\
          <ul class=\"menu-list\"><li>Kanaa &amp; riisi&#228;</li><li>  </li></ul>\
        </section>\
        <section class=\"menu-section\">\
          <h2 class=\"menu-title\">Tyhj\u{e4}</h2>\
          <ul class=\"menu-list\"><li>   </li></ul>\
        </section>\
        <section class=\"menu-section\">\
          <ul class=\"menu-list\"><li>Keitto</li></ul>\
        </section>\
        </body></html>";
    let menu = parse_antell_html(html, "2024-11-13");
    assert_eq!(menu.date_iso, "2024-11-13");
    assert_eq!(menu.menus.len(), 2);
    assert_eq!(menu.menus[0].name, "Lounas");
    assert_eq!(menu.menus[0].price, "10,90");
    assert_eq!(menu.menus[0].components, vec![String::from("Kanaa & riisi\u{e4}")]);
    assert_eq!(menu.menus[1].name, "Menu");
    assert_eq!(menu.menus[1].price, "");
}

use vstd::prelude::*;

use crate::allergen::norm_parts;
use crate::json::{json_of, key_index, obj_find, parse_json, JsonValue};
use crate::model::{
    ApiMenuDay, ApiMenuDayView, ApiResponse, ApiResponseView, ApiSetMenu, ApiSetMenuView,
    FetchOutput, FetchOutputView, MenuGroup, MenuGroupView, TodayMenu, TodayMenuView,
};
use crate::restaurant::Provider;
use crate::text::{
    chars_to_string, find_char, norm_ws, normalize_chars, normalize_text, str_to_chars,
    vec_subrange,
};

verus! {

/// `a` is strictly greater than `b` in character-code lexicographic order
/// (for zero-padded ISO dates this is calendar order).
pub open spec fn lex_gt(a: Seq<char>, b: Seq<char>) -> bool
    decreases a.len(),
{
    if a.len() == 0 {
        false
    } else if b.len() == 0 {
        true
    } else if (a[0] as u32) > (b[0] as u32) {
        true
    } else if (a[0] as u32) < (b[0] as u32) {
        false
    } else {
        lex_gt(a.drop_first(), b.drop_first())
    }
}

pub fn lex_gt_chars(a: &Vec<char>, b: &Vec<char>) -> (r: bool)
    ensures
        r == lex_gt(a@, b@),
    decreases a@.len(),
{
    if a.len() == 0 {
        false
    } else if b.len() == 0 {
        true
    } else if (a[0] as u32) > (b[0] as u32) {
        true
    } else if (a[0] as u32) < (b[0] as u32) {
        false
    } else {
        let ta = vec_subrange(a, 1, a.len());
        let tb = vec_subrange(b, 1, b.len());
        proof {
            assert(ta@ =~= a@.drop_first());
            assert(tb@ =~= b@.drop_first());
        }
        lex_gt_chars(&ta, &tb)
    }
}

/// Read an optional text field: absent or `null` is `None`; any non-string
/// value is a type error.
pub open spec fn spec_opt_text_field(
    entries: Seq<(String, JsonValue)>,
    name: Seq<char>,
) -> Option<Option<Seq<char>>> {
    let i = key_index(entries, name);
    if i < 0 {
        Some(None)
    } else {
        match entries[i].1 {
            JsonValue::Null => Some(None),
            JsonValue::Text(t) => Some(Some(t@)),
            _ => None,
        }
    }
}

fn opt_text_field(entries: &Vec<(String, JsonValue)>, name: &str) -> (r: Result<
    Option<String>,
    String,
>)
    ensures
        match r {
            Ok(o) => spec_opt_text_field(entries@, name@) == Some(
                match o {
                    Option::Some(ref s) => Some(s@),
                    Option::None => None::<Seq<char>>,
                },
            ),
            Err(_) => spec_opt_text_field(entries@, name@) is None,
        },
{
    match obj_find(entries, name) {
        None => Ok(None),
        Some(i) => match &entries[i].1 {
            JsonValue::Null => Ok(None),
            JsonValue::Text(t) => {
                let copy = String::from_str(t.as_str());
                Ok(Some(copy))
            },
            _ => Err(String::from_str("unexpected type for a text field")),
        },
    }
}

/// Read an optional integer field: absent or `null` is `None`; a number
/// holding an integral value in `i32` range is accepted.
pub open spec fn spec_opt_i32_field(entries: Seq<(String, JsonValue)>, name: Seq<char>) -> Option<
    Option<i32>,
> {
    let i = key_index(entries, name);
    if i < 0 {
        Some(None)
    } else {
        match entries[i].1 {
            JsonValue::Null => Some(None),
            JsonValue::Num { int_value, text } => match int_value {
                Option::Some(x) => if i32::MIN <= x <= i32::MAX {
                    Some(Some(x as i32))
                } else {
                    None
                },
                Option::None => None,
            },
            _ => None,
        }
    }
}

fn opt_i32_field(entries: &Vec<(String, JsonValue)>, name: &str) -> (r: Result<
    Option<i32>,
    String,
>)
    ensures
        match r {
            Ok(o) => spec_opt_i32_field(entries@, name@) == Some(o),
            Err(_) => spec_opt_i32_field(entries@, name@) is None,
        },
{
    match obj_find(entries, name) {
        None => Ok(None),
        Some(i) => match &entries[i].1 {
            JsonValue::Null => Ok(None),
            JsonValue::Num { int_value, text: _ } => match int_value {
                Some(x) => {
                    let x = *x;
                    if -0x8000_0000i64 <= x && x <= 0x7fff_ffffi64 {
                        Ok(Some(x as i32))
                    } else {
                        Err(String::from_str("integer field out of range"))
                    }
                },
                None => Err(String::from_str("expected an integral number")),
            },
            _ => Err(String::from_str("unexpected type for an integer field")),
        },
    }
}

/// Read an optional list of strings: absent or `null` is `None`; every
/// element must be a string.
pub open spec fn spec_texts_of(items: Seq<JsonValue>) -> Option<Seq<Seq<char>>>
    decreases items.len(),
{
    if items.len() == 0 {
        Some(Seq::empty())
    } else {
        match items[0] {
            JsonValue::Text(t) => match spec_texts_of(items.drop_first()) {
                Option::Some(r) => Some(seq![t@] + r),
                Option::None => None,
            },
            _ => None,
        }
    }
}

pub open spec fn spec_opt_texts_field(
    entries: Seq<(String, JsonValue)>,
    name: Seq<char>,
) -> Option<Option<Seq<Seq<char>>>> {
    let i = key_index(entries, name);
    if i < 0 {
        Some(None)
    } else {
        match entries[i].1 {
            JsonValue::Null => Some(None),
            JsonValue::List(items) => match spec_texts_of(items@) {
                Option::Some(t) => Some(Some(t)),
                Option::None => None,
            },
            _ => None,
        }
    }
}

fn texts_of(items: &Vec<JsonValue>, from: usize) -> (r: Result<Vec<String>, String>)
    requires
        from <= items@.len(),
    ensures
        match r {
            Ok(v) => spec_texts_of(items@.skip(from as int)) == Some(
                v@.map_values(|s: String| s@),
            ),
            Err(_) => spec_texts_of(items@.skip(from as int)) is None,
        },
    decreases items@.len() - from,
{
    let ghost rest = items@.skip(from as int);
    if from == items.len() {
        let empty: Vec<String> = Vec::new();
        proof {
            assert(rest.len() == 0);
            assert(empty@.map_values(|s: String| s@) =~= Seq::<Seq<char>>::empty());
        }
        return Ok(empty);
    }
    proof {
        assert(rest[0] == items@[from as int]);
        assert(rest.drop_first() =~= items@.skip(from + 1));
    }
    match &items[from] {
        JsonValue::Text(t) => {
            let head = String::from_str(t.as_str());
            match texts_of(items, from + 1) {
                Ok(mut v) => {
                    let ghost pre = v@.map_values(|s: String| s@);
                    v.insert(0, head);
                    proof {
                        assert(v@.map_values(|s: String| s@) =~= seq![
                            items@[from as int]->Text_0@,
                        ] + pre);
                    }
                    Ok(v)
                },
                Err(e) => Err(e),
            }
        },
        _ => Err(String::from_str("expected a list of strings")),
    }
}

fn opt_texts_field(entries: &Vec<(String, JsonValue)>, name: &str) -> (r: Result<
    Option<Vec<String>>,
    String,
>)
    ensures
        match r {
            Ok(o) => spec_opt_texts_field(entries@, name@) == Some(
                match o {
                    Option::Some(ref v) => Some(v@.map_values(|s: String| s@)),
                    Option::None => None::<Seq<Seq<char>>>,
                },
            ),
            Err(_) => spec_opt_texts_field(entries@, name@) is None,
        },
{
    match obj_find(entries, name) {
        None => Ok(None),
        Some(i) => match &entries[i].1 {
            JsonValue::Null => Ok(None),
            JsonValue::List(items) => {
                proof {
                    assert(items@.skip(0) =~= items@);
                }
                match texts_of(items, 0) {
                    Ok(v) => Ok(Some(v)),
                    Err(e) => Err(e),
                }
            },
            _ => Err(String::from_str("expected a list of strings")),
        },
    }
}

/// One named sub-menu read from its JSON object.
pub open spec fn spec_set_menu_of(v: JsonValue) -> Option<ApiSetMenuView> {
    match v {
        JsonValue::Object(entries) => {
            match spec_opt_i32_field(entries@, "SortOrder"@) {
                Option::None => None,
                Option::Some(sort_order) => match spec_opt_text_field(entries@, "Name"@) {
                    Option::None => None,
                    Option::Some(name) => match spec_opt_text_field(entries@, "Price"@) {
                        Option::None => None,
                        Option::Some(price) => match spec_opt_texts_field(
                            entries@,
                            "Components"@,
                        ) {
                            Option::None => None,
                            Option::Some(components) => Some(
                                ApiSetMenuView { sort_order, name, price, components },
                            ),
                        },
                    },
                },
            }
        },
        _ => None,
    }
}

fn set_menu_of(v: &JsonValue) -> (r: Result<ApiSetMenu, String>)
    ensures
        match r {
            Ok(m) => spec_set_menu_of(*v) == Some(m@),
            Err(_) => spec_set_menu_of(*v) is None,
        },
{
    match v {
        JsonValue::Object(entries) => {
            let sort_order = match opt_i32_field(entries, "SortOrder") {
                Ok(x) => x,
                Err(e) => {
                    return Err(e);
                },
            };
            let name = match opt_text_field(entries, "Name") {
                Ok(x) => x,
                Err(e) => {
                    return Err(e);
                },
            };
            let price = match opt_text_field(entries, "Price") {
                Ok(x) => x,
                Err(e) => {
                    return Err(e);
                },
            };
            let components = match opt_texts_field(entries, "Components") {
                Ok(x) => x,
                Err(e) => {
                    return Err(e);
                },
            };
            Ok(ApiSetMenu { sort_order, name, price, components })
        },
        _ => Err(String::from_str("expected a sub-menu object")),
    }
}

pub open spec fn spec_set_menus_of(items: Seq<JsonValue>) -> Option<Seq<ApiSetMenuView>>
    decreases items.len(),
{
    if items.len() == 0 {
        Some(Seq::empty())
    } else {
        match spec_set_menu_of(items[0]) {
            Option::None => None,
            Option::Some(m) => match spec_set_menus_of(items.drop_first()) {
                Option::Some(r) => Some(seq![m] + r),
                Option::None => None,
            },
        }
    }
}

fn set_menus_of(items: &Vec<JsonValue>, from: usize) -> (r: Result<Vec<ApiSetMenu>, String>)
    requires
        from <= items@.len(),
    ensures
        match r {
            Ok(v) => spec_set_menus_of(items@.skip(from as int)) == Some(
                v@.map_values(|m: ApiSetMenu| m@),
            ),
            Err(_) => spec_set_menus_of(items@.skip(from as int)) is None,
        },
    decreases items@.len() - from,
{
    let ghost rest = items@.skip(from as int);
    if from == items.len() {
        let empty: Vec<ApiSetMenu> = Vec::new();
        proof {
            assert(rest.len() == 0);
            assert(empty@.map_values(|m: ApiSetMenu| m@) =~= Seq::<ApiSetMenuView>::empty());
        }
        return Ok(empty);
    }
    proof {
        assert(rest[0] == items@[from as int]);
        assert(rest.drop_first() =~= items@.skip(from + 1));
    }
    let head = match set_menu_of(&items[from]) {
        Ok(m) => m,
        Err(e) => {
            return Err(e);
        },
    };
    match set_menus_of(items, from + 1) {
        Ok(mut v) => {
            let ghost hv = head@;
            let ghost pre = v@.map_values(|m: ApiSetMenu| m@);
            v.insert(0, head);
            proof {
                assert(v@.map_values(|m: ApiSetMenu| m@) =~= seq![hv] + pre);
            }
            Ok(v)
        },
        Err(e) => Err(e),
    }
}

/// One day of the feed read from its JSON object.
pub open spec fn spec_menu_day_of(v: JsonValue) -> Option<ApiMenuDayView> {
    match v {
        JsonValue::Object(entries) => {
            match spec_opt_text_field(entries@, "Date"@) {
                Option::None => None,
                Option::Some(date) => match spec_opt_text_field(entries@, "LunchTime"@) {
                    Option::None => None,
                    Option::Some(lunch_time) => {
                        let i = key_index(entries@, "SetMenus"@);
                        if i < 0 {
                            Some(ApiMenuDayView { date, lunch_time, set_menus: None })
                        } else {
                            match entries@[i].1 {
                                JsonValue::Null => Some(
                                    ApiMenuDayView { date, lunch_time, set_menus: None },
                                ),
                                JsonValue::List(items) => match spec_set_menus_of(items@) {
                                    Option::Some(ms) => Some(
                                        ApiMenuDayView { date, lunch_time, set_menus: Some(ms) },
                                    ),
                                    Option::None => None,
                                },
                                _ => None,
                            }
                        }
                    },
                },
            }
        },
        _ => None,
    }
}

fn menu_day_of(v: &JsonValue) -> (r: Result<ApiMenuDay, String>)
    ensures
        match r {
            Ok(d) => spec_menu_day_of(*v) == Some(d@),
            Err(_) => spec_menu_day_of(*v) is None,
        },
{
    match v {
        JsonValue::Object(entries) => {
            let date = match opt_text_field(entries, "Date") {
                Ok(x) => x,
                Err(e) => {
                    return Err(e);
                },
            };
            let lunch_time = match opt_text_field(entries, "LunchTime") {
                Ok(x) => x,
                Err(e) => {
                    return Err(e);
                },
            };
            match obj_find(entries, "SetMenus") {
                None => Ok(ApiMenuDay { date, lunch_time, set_menus: None }),
                Some(i) => match &entries[i].1 {
                    JsonValue::Null => Ok(ApiMenuDay { date, lunch_time, set_menus: None }),
                    JsonValue::List(items) => {
                        proof {
                            assert(items@.skip(0) =~= items@);
                        }
                        match set_menus_of(items, 0) {
                            Ok(ms) => Ok(
                                ApiMenuDay { date, lunch_time, set_menus: Some(ms) },
                            ),
                            Err(e) => Err(e),
                        }
                    },
                    _ => Err(String::from_str("expected a list of sub-menus")),
                },
            }
        },
        _ => Err(String::from_str("expected a day object")),
    }
}

pub open spec fn spec_menu_days_of(items: Seq<JsonValue>) -> Option<Seq<ApiMenuDayView>>
    decreases items.len(),
{
    if items.len() == 0 {
        Some(Seq::empty())
    } else {
        match spec_menu_day_of(items[0]) {
            Option::None => None,
            Option::Some(d) => match spec_menu_days_of(items.drop_first()) {
                Option::Some(r) => Some(seq![d] + r),
                Option::None => None,
            },
        }
    }
}

fn menu_days_of(items: &Vec<JsonValue>, from: usize) -> (r: Result<Vec<ApiMenuDay>, String>)
    requires
        from <= items@.len(),
    ensures
        match r {
            Ok(v) => spec_menu_days_of(items@.skip(from as int)) == Some(
                v@.map_values(|d: ApiMenuDay| d@),
            ),
            Err(_) => spec_menu_days_of(items@.skip(from as int)) is None,
        },
    decreases items@.len() - from,
{
    let ghost rest = items@.skip(from as int);
    if from == items.len() {
        let empty: Vec<ApiMenuDay> = Vec::new();
        proof {
            assert(rest.len() == 0);
            assert(empty@.map_values(|d: ApiMenuDay| d@) =~= Seq::<ApiMenuDayView>::empty());
        }
        return Ok(empty);
    }
    proof {
        assert(rest[0] == items@[from as int]);
        assert(rest.drop_first() =~= items@.skip(from + 1));
    }
    let head = match menu_day_of(&items[from]) {
        Ok(d) => d,
        Err(e) => {
            return Err(e);
        },
    };
    match menu_days_of(items, from + 1) {
        Ok(mut v) => {
            let ghost hv = head@;
            let ghost pre = v@.map_values(|d: ApiMenuDay| d@);
            v.insert(0, head);
            proof {
                assert(v@.map_values(|d: ApiMenuDay| d@) =~= seq![hv] + pre);
            }
            Ok(v)
        },
        Err(e) => Err(e),
    }
}

/// The whole day-indexed feed payload read from its parsed JSON document.
pub open spec fn spec_api_response_of(v: JsonValue) -> Option<ApiResponseView> {
    match v {
        JsonValue::Object(entries) => {
            match spec_opt_text_field(entries@, "RestaurantName"@) {
                Option::None => None,
                Option::Some(restaurant_name) => match spec_opt_text_field(
                    entries@,
                    "RestaurantUrl"@,
                ) {
                    Option::None => None,
                    Option::Some(restaurant_url) => match spec_opt_text_field(
                        entries@,
                        "ErrorText"@,
                    ) {
                        Option::None => None,
                        Option::Some(error_text) => {
                            let i = key_index(entries@, "MenusForDays"@);
                            if i < 0 {
                                Some(
                                    ApiResponseView {
                                        restaurant_name,
                                        restaurant_url,
                                        menus_for_days: None,
                                        error_text,
                                    },
                                )
                            } else {
                                match entries@[i].1 {
                                    JsonValue::Null => Some(
                                        ApiResponseView {
                                            restaurant_name,
                                            restaurant_url,
                                            menus_for_days: None,
                                            error_text,
                                        },
                                    ),
                                    JsonValue::List(items) => match spec_menu_days_of(items@) {
                                        Option::Some(ds) => Some(
                                            ApiResponseView {
                                                restaurant_name,
                                                restaurant_url,
                                                menus_for_days: Some(ds),
                                                error_text,
                                            },
                                        ),
                                        Option::None => None,
                                    },
                                    _ => None,
                                }
                            }
                        },
                    },
                },
            }
        },
        _ => None,
    }
}

/// Read the day-indexed feed structure out of a parsed JSON document.
pub fn api_response_of(v: &JsonValue) -> (r: Result<ApiResponse, String>)
    ensures
        match r {
            Ok(a) => spec_api_response_of(*v) == Some(a@),
            Err(_) => spec_api_response_of(*v) is None,
        },
{
    match v {
        JsonValue::Object(entries) => {
            let restaurant_name = match opt_text_field(entries, "RestaurantName") {
                Ok(x) => x,
                Err(e) => {
                    return Err(e);
                },
            };
            let restaurant_url = match opt_text_field(entries, "RestaurantUrl") {
                Ok(x) => x,
                Err(e) => {
                    return Err(e);
                },
            };
            let error_text = match opt_text_field(entries, "ErrorText") {
                Ok(x) => x,
                Err(e) => {
                    return Err(e);
                },
            };
            match obj_find(entries, "MenusForDays") {
                None => Ok(
                    ApiResponse {
                        restaurant_name,
                        restaurant_url,
                        menus_for_days: None,
                        error_text,
                    },
                ),
                Some(i) => match &entries[i].1 {
                    JsonValue::Null => Ok(
                        ApiResponse {
                            restaurant_name,
                            restaurant_url,
                            menus_for_days: None,
                            error_text,
                        },
                    ),
                    JsonValue::List(items) => {
                        proof {
                            assert(items@.skip(0) =~= items@);
                        }
                        match menu_days_of(items, 0) {
                            Ok(ds) => Ok(
                                ApiResponse {
                                    restaurant_name,
                                    restaurant_url,
                                    menus_for_days: Some(ds),
                                    error_text,
                                },
                            ),
                            Err(e) => Err(e),
                        }
                    },
                    _ => Err(String::from_str("expected a list of days")),
                },
            }
        },
        _ => Err(String::from_str("expected a feed object")),
    }
}

pub open spec fn spec_norm_opt(o: Option<Seq<char>>) -> Seq<char> {
    match o {
        Option::Some(s) => norm_ws(s),
        Option::None => Seq::empty(),
    }
}

/// One sub-menu normalized into a display group.
pub open spec fn spec_normalize_group(m: ApiSetMenuView) -> MenuGroupView {
    MenuGroupView {
        name: spec_norm_opt(m.name),
        price: spec_norm_opt(m.price),
        components: norm_parts(
            match m.components {
                Option::Some(c) => c,
                Option::None => Seq::empty(),
            },
        ),
    }
}

/// The sort key of a sub-menu: its sort order, defaulting to its original
/// index, with the index as the only tie-break.
pub open spec fn spec_menu_sort_key(m: ApiSetMenuView, idx: int) -> int {
    match m.sort_order {
        Option::Some(s) => s as int,
        Option::None => idx,
    }
}

pub open spec fn key_le(a: (int, int, ApiSetMenuView), b: (int, int, ApiSetMenuView)) -> bool {
    a.0 < b.0 || (a.0 == b.0 && a.1 <= b.1)
}

/// Each sub-menu paired with its sort key and original index.
pub open spec fn keyed_menus(s: Seq<ApiSetMenuView>) -> Seq<(int, int, ApiSetMenuView)> {
    Seq::new(s.len(), |i: int| (spec_menu_sort_key(s[i], i), i, s[i]))
}

pub open spec fn sorted_insert(
    x: (int, int, ApiSetMenuView),
    s: Seq<(int, int, ApiSetMenuView)>,
) -> Seq<(int, int, ApiSetMenuView)>
    decreases s.len(),
{
    if s.len() == 0 {
        seq![x]
    } else if key_le(x, s[0]) {
        seq![x] + s
    } else {
        seq![s[0]] + sorted_insert(x, s.drop_first())
    }
}

/// The sub-menus in ascending `(sort key, original index)` order, one
/// insertion at a time from the left.
pub open spec fn sort_keyed(s: Seq<(int, int, ApiSetMenuView)>) -> Seq<(int, int, ApiSetMenuView)>
    decreases s.len(),
{
    if s.len() == 0 {
        Seq::empty()
    } else {
        sorted_insert(s.last(), sort_keyed(s.drop_last()))
    }
}

pub open spec fn has_any_sort_order(s: Seq<ApiSetMenuView>) -> bool {
    exists|i: int| 0 <= i < s.len() && (#[trigger] s[i].sort_order) is Some
}

/// The groups whose component list is non-empty, in order.
pub open spec fn nonempty_groups(gs: Seq<MenuGroupView>) -> Seq<MenuGroupView>
    decreases gs.len(),
{
    if gs.len() == 0 {
        Seq::empty()
    } else {
        let rest = nonempty_groups(gs.drop_first());
        if gs[0].components.len() > 0 {
            seq![gs[0]] + rest
        } else {
            rest
        }
    }
}

/// The normalized display groups of a day's sub-menus: reordered by
/// `(sort order, original index)` when any sub-menu carries a sort order,
/// kept in original order otherwise; a group whose component list is empty
/// after normalization is excluded.
pub open spec fn spec_normalize_menus(s: Seq<ApiSetMenuView>) -> Seq<MenuGroupView> {
    let trips = keyed_menus(s);
    let ordered = if has_any_sort_order(s) {
        sort_keyed(trips)
    } else {
        trips
    };
    nonempty_groups(ordered.map_values(|t: (int, int, ApiSetMenuView)| spec_normalize_group(t.2)))
}

fn copy_string(s: &String) -> (r: String)
    ensures
        r@ == s@,
{
    String::from_str(s.as_str())
}

fn copy_opt_string(s: &Option<String>) -> (r: Option<String>)
    ensures
        match s {
            Option::Some(x) => r matches Option::Some(y) && x@ == y@,
            Option::None => r is None,
        },
{
    match s {
        Some(x) => Some(copy_string(x)),
        None => None,
    }
}

fn copy_set_menu(m: &ApiSetMenu) -> (r: ApiSetMenu)
    ensures
        r@ == m@,
{
    let components: Option<Vec<String>> = match &m.components {
        Some(v) => {
            let mut out: Vec<String> = Vec::new();
            let mut i: usize = 0;
            while i < v.len()
                invariant
                    i <= v@.len(),
                    out@.map_values(|s: String| s@) == v@.map_values(|s: String| s@).take(i as int),
                decreases v@.len() - i,
            {
                let c = copy_string(&v[i]);
                proof {
                    assert(c@ == v@.map_values(|s: String| s@)[i as int]);
                }
                let ghost pre = out@;
                out.push(c);
                proof {
                    assert(out@.map_values(|s: String| s@) =~= pre.map_values(
                        |s: String| s@,
                    ).push(c@));
                    assert(v@.map_values(|s: String| s@).take(i + 1) =~= v@.map_values(
                        |s: String| s@,
                    ).take(i as int).push(v@.map_values(|s: String| s@)[i as int]));
                }
                i += 1;
            }
            proof {
                assert(v@.map_values(|s: String| s@).take(v@.len() as int) =~= v@.map_values(
                    |s: String| s@,
                ));
            }
            Some(out)
        },
        None => None,
    };
    let r = ApiSetMenu {
        sort_order: m.sort_order,
        name: copy_opt_string(&m.name),
        price: copy_opt_string(&m.price),
        components,
    };
    proof {
        assert(r@ == m@);
    }
    r
}

proof fn lemma_sorted_insert_at(
    x: (int, int, ApiSetMenuView),
    s: Seq<(int, int, ApiSetMenuView)>,
    p: int,
)
    requires
        0 <= p <= s.len(),
        forall|j: int| 0 <= j < p ==> !key_le(x, #[trigger] s[j]),
        p < s.len() ==> key_le(x, s[p]),
    ensures
        sorted_insert(x, s) == s.take(p) + seq![x] + s.skip(p),
    decreases p,
{
    if s.len() == 0 {
        assert(sorted_insert(x, s) =~= s.take(p) + seq![x] + s.skip(p));
    } else if p == 0 {
        assert(key_le(x, s[0]));
        assert(sorted_insert(x, s) =~= s.take(0) + seq![x] + s.skip(0));
    } else {
        assert(!key_le(x, s[0]));
        let rest = s.drop_first();
        assert forall|j: int| 0 <= j < p - 1 implies !key_le(x, #[trigger] rest[j]) by {
            assert(rest[j] == s[j + 1]);
        }
        if p - 1 < rest.len() {
            assert(rest[p - 1] == s[p]);
        }
        lemma_sorted_insert_at(x, rest, p - 1);
        assert(sorted_insert(x, s) == seq![s[0]] + sorted_insert(x, rest));
        assert(seq![s[0]] + (rest.take(p - 1) + seq![x] + rest.skip(p - 1)) =~= s.take(p) + seq![x]
            + s.skip(p));
    }
}

fn insert_sorted_exec(arr: &mut Vec<(i128, usize, ApiSetMenu)>, x: (i128, usize, ApiSetMenu))
    ensures
        final(arr)@.map_values(|t: (i128, usize, ApiSetMenu)| (t.0 as int, t.1 as int, t.2@))
            == sorted_insert(
            (x.0 as int, x.1 as int, x.2@),
            old(arr)@.map_values(|t: (i128, usize, ApiSetMenu)| (t.0 as int, t.1 as int, t.2@)),
        ),
{
    let ghost sv = arr@.map_values(|t: (i128, usize, ApiSetMenu)| (t.0 as int, t.1 as int, t.2@));
    let ghost xv = (x.0 as int, x.1 as int, x.2@);
    let mut p: usize = 0;
    while p < arr.len() && !(x.0 < arr[p].0 || (x.0 == arr[p].0 && x.1 <= arr[p].1))
        invariant
            p <= arr@.len(),
            arr@ == old(arr)@,
            sv == arr@.map_values(|t: (i128, usize, ApiSetMenu)| (t.0 as int, t.1 as int, t.2@)),
            xv == (x.0 as int, x.1 as int, x.2@),
            forall|j: int| 0 <= j < p ==> !key_le(xv, #[trigger] sv[j]),
        decreases arr@.len() - p,
    {
        proof {
            assert(sv[p as int] == (arr@[p as int].0 as int, arr@[p as int].1 as int,
            arr@[p as int].2@));
        }
        p += 1;
    }
    proof {
        if p < arr@.len() {
            assert(sv[p as int] == (arr@[p as int].0 as int, arr@[p as int].1 as int,
            arr@[p as int].2@));
            assert(key_le(xv, sv[p as int]));
        }
        lemma_sorted_insert_at(xv, sv, p as int);
    }
    arr.insert(p, x);
    proof {
        assert(final(arr)@.map_values(
            |t: (i128, usize, ApiSetMenu)| (t.0 as int, t.1 as int, t.2@),
        ) =~= sv.take(p as int) + seq![xv] + sv.skip(p as int));
    }
}

fn norm_components(v: &Vec<String>) -> (out: Vec<String>)
    ensures
        out@.map_values(|s: String| s@) == norm_parts(v@.map_values(|s: String| s@)),
{
    let ghost sv = v@.map_values(|s: String| s@);
    let mut out: Vec<String> = Vec::new();
    let mut i: usize = 0;
    proof {
        assert(sv.skip(0) =~= sv);
        assert(out@.map_values(|s: String| s@) =~= Seq::<Seq<char>>::empty());
        assert(out@.map_values(|s: String| s@) + norm_parts(sv) =~= norm_parts(sv));
    }
    while i < v.len()
        invariant
            i <= v@.len(),
            sv == v@.map_values(|s: String| s@),
            norm_parts(sv) == out@.map_values(|s: String| s@) + norm_parts(sv.skip(i as int)),
        decreases v@.len() - i,
    {
        let ghost rest = sv.skip(i as int);
        proof {
            assert(rest[0] == sv[i as int]);
            assert(rest.drop_first() =~= sv.skip(i + 1));
        }
        let c = normalize_text(v[i].as_str());
        if c.as_str().unicode_len() > 0 {
            assert(c@.len() > 0);
            let ghost pre = out@;
            out.push(c);
            proof {
                assert(out@.map_values(|s: String| s@) =~= pre.map_values(|s: String| s@)
                    + seq![norm_ws(sv[i as int])]);
                assert((pre.map_values(|s: String| s@) + seq![norm_ws(sv[i as int])]) + norm_parts(
                    sv.skip(i + 1),
                ) =~= pre.map_values(|s: String| s@) + (seq![norm_ws(sv[i as int])] + norm_parts(
                    sv.skip(i + 1),
                )));
            }
        } else {
            assert(c@.len() == 0);
        }
        i += 1;
    }
    proof {
        assert(sv.skip(sv.len() as int) =~= Seq::<Seq<char>>::empty());
        assert(out@.map_values(|s: String| s@) + Seq::<Seq<char>>::empty() =~= out@.map_values(
            |s: String| s@,
        ));
    }
    out
}

fn normalize_group(m: &ApiSetMenu) -> (r: MenuGroup)
    ensures
        r@ == spec_normalize_group(m@),
{
    let name = match &m.name {
        Some(s) => normalize_text(s.as_str()),
        None => String::new(),
    };
    let price = match &m.price {
        Some(s) => normalize_text(s.as_str()),
        None => String::new(),
    };
    let components = match &m.components {
        Some(v) => norm_components(v),
        None => {
            let empty: Vec<String> = Vec::new();
            proof {
                assert(empty@.map_values(|s: String| s@) =~= Seq::<Seq<char>>::empty());
                assert(norm_parts(Seq::<Seq<char>>::empty()) =~= Seq::<Seq<char>>::empty());
            }
            empty
        },
    };
    let r = MenuGroup { name, price, components };
    proof {
        assert(r@ == spec_normalize_group(m@));
    }
    r
}

/// Reorder a day's sub-menus by `(sort order, original index)` when any
/// carries a sort order, then normalize each into a display group.
pub fn normalize_menus(set_menus: &Vec<ApiSetMenu>) -> (out: Vec<MenuGroup>)
    ensures
        out@.map_values(|g: MenuGroup| g@) == spec_normalize_menus(
            set_menus@.map_values(|m: ApiSetMenu| m@),
        ),
{
    let ghost sv = set_menus@.map_values(|m: ApiSetMenu| m@);
    let ghost trips = keyed_menus(sv);
    let mut has_sort = false;
    let mut i: usize = 0;
    while i < set_menus.len()
        invariant
            i <= set_menus@.len(),
            sv == set_menus@.map_values(|m: ApiSetMenu| m@),
            has_sort == exists|j: int| 0 <= j < i && (#[trigger] sv[j].sort_order) is Some,
        decreases set_menus@.len() - i,
    {
        if match &set_menus[i].sort_order {
            Some(_) => true,
            None => false,
        } {
            proof {
                assert(sv[i as int].sort_order is Some);
            }
            has_sort = true;
        }
        i += 1;
    }
    proof {
        assert(has_sort == has_any_sort_order(sv));
    }
    let mut triples: Vec<(i128, usize, ApiSetMenu)> = Vec::new();
    let mut i: usize = 0;
    proof {
        assert(triples@.map_values(
            |t: (i128, usize, ApiSetMenu)| (t.0 as int, t.1 as int, t.2@),
        ) =~= trips.take(0));
    }
    while i < set_menus.len()
        invariant
            i <= set_menus@.len(),
            sv == set_menus@.map_values(|m: ApiSetMenu| m@),
            trips == keyed_menus(sv),
            triples@.map_values(|t: (i128, usize, ApiSetMenu)| (t.0 as int, t.1 as int, t.2@))
                == trips.take(i as int),
        decreases set_menus@.len() - i,
    {
        let m = copy_set_menu(&set_menus[i]);
        proof {
            assert(sv[i as int] == set_menus@[i as int]@);
        }
        let key: i128 = match &m.sort_order {
            Some(s) => *s as i128,
            None => i as i128,
        };
        let ghost pre = triples@;
        proof {
            assert(m@ == sv[i as int]);
            assert(trips[i as int] == (spec_menu_sort_key(sv[i as int], i as int), i as int,
            sv[i as int]));
            assert(key as int == spec_menu_sort_key(sv[i as int], i as int));
        }
        let ghost mv = m@;
        triples.push((key, i, m));
        proof {
            assert(triples@.map_values(
                |t: (i128, usize, ApiSetMenu)| (t.0 as int, t.1 as int, t.2@),
            ) =~= pre.map_values(
                |t: (i128, usize, ApiSetMenu)| (t.0 as int, t.1 as int, t.2@),
            ).push((key as int, i as int, mv)));
            assert(trips.take(i + 1) =~= trips.take(i as int).push(trips[i as int]));
            assert((key as int, i as int, mv) == trips[i as int]);
        }
        i += 1;
    }
    proof {
        assert(trips.take(trips.len() as int) =~= trips);
        assert(trips.len() == sv.len());
    }
    let ordered: Vec<(i128, usize, ApiSetMenu)> = if has_sort {
        let mut acc: Vec<(i128, usize, ApiSetMenu)> = Vec::new();
        let mut i: usize = 0;
        proof {
            assert(acc@.map_values(
                |t: (i128, usize, ApiSetMenu)| (t.0 as int, t.1 as int, t.2@),
            ) =~= sort_keyed(trips.take(0)));
        }
        while i < triples.len()
            invariant
                i <= triples@.len(),
                trips == keyed_menus(sv),
                triples@.map_values(|t: (i128, usize, ApiSetMenu)| (t.0 as int, t.1 as int, t.2@))
                    == trips,
                acc@.map_values(|t: (i128, usize, ApiSetMenu)| (t.0 as int, t.1 as int, t.2@))
                    == sort_keyed(trips.take(i as int)),
            decreases triples@.len() - i,
        {
            let x = copy_triple(&triples[i]);
            proof {
                assert((x.0 as int, x.1 as int, x.2@) == trips[i as int]);
                assert(trips.take(i + 1).drop_last() =~= trips.take(i as int));
                assert(trips.take(i + 1).last() == trips[i as int]);
            }
            insert_sorted_exec(&mut acc, x);
            i += 1;
        }
        proof {
            assert(trips.take(triples@.len() as int) =~= trips);
        }
        acc
    } else {
        triples
    };
    let ghost sordered = if has_any_sort_order(sv) {
        sort_keyed(trips)
    } else {
        trips
    };
    proof {
        assert(ordered@.map_values(|t: (i128, usize, ApiSetMenu)| (t.0 as int, t.1 as int, t.2@))
            == sordered);
    }
    let ghost target = sordered.map_values(
        |t: (int, int, ApiSetMenuView)| spec_normalize_group(t.2),
    );
    let mut out: Vec<MenuGroup> = Vec::new();
    let mut i: usize = 0;
    proof {
        assert(target.skip(0) =~= target);
        assert(out@.map_values(|g: MenuGroup| g@) =~= Seq::<MenuGroupView>::empty());
        assert(out@.map_values(|g: MenuGroup| g@) + nonempty_groups(target) =~= nonempty_groups(
            target,
        ));
    }
    while i < ordered.len()
        invariant
            i <= ordered@.len(),
            ordered@.map_values(|t: (i128, usize, ApiSetMenu)| (t.0 as int, t.1 as int, t.2@))
                == sordered,
            target == sordered.map_values(
                |t: (int, int, ApiSetMenuView)| spec_normalize_group(t.2),
            ),
            nonempty_groups(target) == out@.map_values(|g: MenuGroup| g@) + nonempty_groups(
                target.skip(i as int),
            ),
        decreases ordered@.len() - i,
    {
        let ghost rest = target.skip(i as int);
        let g = normalize_group(&ordered[i].2);
        proof {
            assert(sordered[i as int] == (ordered@[i as int].0 as int, ordered@[i as int].1 as int,
            ordered@[i as int].2@));
            assert(target[i as int] == spec_normalize_group(sordered[i as int].2));
            assert(g@ == target[i as int]);
            assert(rest[0] == target[i as int]);
            assert(rest.drop_first() =~= target.skip(i + 1));
        }
        if g.components.len() > 0 {
            proof {
                assert(g@.components.len() > 0);
            }
            let ghost pre = out@;
            let ghost gv = g@;
            out.push(g);
            proof {
                assert(out@.map_values(|g: MenuGroup| g@) =~= pre.map_values(
                    |g: MenuGroup| g@,
                ).push(gv));
                assert(pre.map_values(|g: MenuGroup| g@).push(gv) =~= pre.map_values(
                    |g: MenuGroup| g@,
                ) + seq![gv]);
                assert((pre.map_values(|g: MenuGroup| g@) + seq![gv]) + nonempty_groups(
                    target.skip(i + 1),
                ) =~= pre.map_values(|g: MenuGroup| g@) + (seq![gv] + nonempty_groups(
                    target.skip(i + 1),
                )));
            }
        } else {
            proof {
                assert(g@.components.len() == 0);
            }
        }
        i += 1;
    }
    proof {
        assert(ordered@.len() == sordered.len());
        assert(target.skip(target.len() as int) =~= Seq::<MenuGroupView>::empty());
        assert(out@.map_values(|g: MenuGroup| g@) + Seq::<MenuGroupView>::empty()
            =~= out@.map_values(|g: MenuGroup| g@));
    }
    out
}

fn copy_triple(t: &(i128, usize, ApiSetMenu)) -> (r: (i128, usize, ApiSetMenu))
    ensures
        r.0 == t.0 && r.1 == t.1 && r.2@ == t.2@,
{
    (t.0, t.1, copy_set_menu(&t.2))
}

/// The date portion of a day entry's date text: everything before a 'T'.
pub open spec fn spec_day_date_key(d: ApiMenuDayView) -> Seq<char> {
    let normed = spec_norm_opt(d.date);
    let f = find_char(normed, 'T');
    if f < 0 {
        normed
    } else {
        normed.take(f)
    }
}

fn day_date_key(d: &ApiMenuDay) -> (r: Vec<char>)
    ensures
        r@ == spec_day_date_key(d@),
{
    let normed: Vec<char> = match &d.date {
        Some(s) => {
            let c = str_to_chars(s.as_str());
            normalize_chars(&c)
        },
        None => Vec::new(),
    };
    proof {
        assert(normed@ == spec_norm_opt(d@.date));
        assert(normed@.skip(0) =~= normed@);
    }
    match crate::text::find_char_from(&normed, 0, 'T') {
        Some(f) => {
            let out = vec_subrange(&normed, 0, f);
            proof {
                assert(out@ =~= normed@.take(f as int));
            }
            out
        },
        None => normed,
    }
}

/// Walk the day list from `i`: the index of the day whose date key equals
/// `today`, and the lexicographically greatest date key seen on the way
/// (folded onto `fallback`).
pub open spec fn spec_day_scan(
    days: Seq<ApiMenuDayView>,
    i: int,
    today: Seq<char>,
    fallback: Seq<char>,
) -> (Option<int>, Seq<char>)
    decreases days.len() - i,
{
    if i < 0 || i >= days.len() {
        (None, fallback)
    } else {
        let dk = spec_day_date_key(days[i]);
        let fb2 = if dk.len() > 0 && (fallback.len() == 0 || lex_gt(dk, fallback)) {
            dk
        } else {
            fallback
        };
        if dk == today {
            (Some(i), fb2)
        } else {
            spec_day_scan(days, i + 1, today, fb2)
        }
    }
}

/// Parse one day-indexed feed structure against the reference date
/// `today`: a non-empty error text is a provider-level error; otherwise
/// the day matching `today` becomes the menu, and the payload date is
/// `today` on a match or else the greatest date key present.
pub open spec fn spec_parse_response(
    api: ApiResponseView,
    raw: Seq<char>,
    today: Seq<char>,
) -> FetchOutputView {
    let etext = spec_norm_opt(api.error_text);
    if etext.len() > 0 {
        FetchOutputView {
            ok: false,
            error_message: etext,
            today_menu: None,
            restaurant_name: spec_norm_opt(api.restaurant_name),
            restaurant_url: spec_norm_opt(api.restaurant_url),
            provider: Provider::Compass,
            raw_json: raw,
            payload_date: Seq::empty(),
        }
    } else {
        let days = match api.menus_for_days {
            Option::Some(d) => d,
            Option::None => Seq::empty(),
        };
        let scan = spec_day_scan(days, 0, today, Seq::empty());
        let today_menu = match scan.0 {
            Option::Some(i) => Some(
                TodayMenuView {
                    date_iso: today,
                    lunch_time: spec_norm_opt(days[i].lunch_time),
                    menus: spec_normalize_menus(
                        match days[i].set_menus {
                            Option::Some(s) => s,
                            Option::None => Seq::empty(),
                        },
                    ),
                },
            ),
            Option::None => None,
        };
        FetchOutputView {
            ok: true,
            error_message: Seq::empty(),
            today_menu,
            restaurant_name: spec_norm_opt(api.restaurant_name),
            restaurant_url: spec_norm_opt(api.restaurant_url),
            provider: Provider::Compass,
            raw_json: raw,
            payload_date: match scan.0 {
                Option::Some(_) => today,
                Option::None => scan.1,
            },
        }
    }
}

fn norm_opt_string(o: &Option<String>) -> (r: String)
    ensures
        r@ == spec_norm_opt(
            match o {
                Option::Some(ref s) => Some(s@),
                Option::None => None,
            },
        ),
{
    match o {
        Some(s) => normalize_text(s.as_str()),
        None => String::new(),
    }
}

/// Turn one decoded feed structure into a fetch outcome for `today`.
pub fn parse_response(api: ApiResponse, raw_json: String, today: &str) -> (r: FetchOutput)
    ensures
        r@ == spec_parse_response(api@, raw_json@, today@),
{
    let error_text = norm_opt_string(&api.error_text);
    let restaurant_name = norm_opt_string(&api.restaurant_name);
    let restaurant_url = norm_opt_string(&api.restaurant_url);
    if error_text.as_str().unicode_len() > 0 {
        assert(error_text@.len() > 0);
        return FetchOutput {
            ok: false,
            error_message: error_text,
            today_menu: None,
            restaurant_name,
            restaurant_url,
            provider: Provider::Compass,
            raw_json,
            payload_date: String::new(),
        };
    }
    assert(error_text@.len() == 0);
    let days: Vec<ApiMenuDay> = match api.menus_for_days {
        Some(d) => d,
        None => Vec::new(),
    };
    let ghost sdays = days@.map_values(|d: ApiMenuDay| d@);
    proof {
        assert(sdays == match api@.menus_for_days {
            Option::Some(d) => d,
            Option::None => Seq::<ApiMenuDayView>::empty(),
        });
    }
    let today_chars = str_to_chars(today);
    let mut fallback: Vec<char> = Vec::new();
    let mut i: usize = 0;
    proof {
        assert(fallback@ =~= Seq::<char>::empty());
    }
    while i < days.len()
        invariant
            i <= days@.len(),
            sdays == days@.map_values(|d: ApiMenuDay| d@),
            sdays == match api@.menus_for_days {
                Option::Some(d) => d,
                Option::None => Seq::<ApiMenuDayView>::empty(),
            },
            restaurant_name@ == spec_norm_opt(api@.restaurant_name),
            restaurant_url@ == spec_norm_opt(api@.restaurant_url),
            spec_norm_opt(api@.error_text).len() == 0,
            today_chars@ == today@,
            spec_day_scan(sdays, 0, today@, Seq::empty()) == spec_day_scan(
                sdays,
                i as int,
                today@,
                fallback@,
            ),
        decreases days@.len() - i,
    {
        let ghost fb_pre = fallback@;
        proof {
            assert(sdays[i as int] == days@[i as int]@);
        }
        let dk = day_date_key(&days[i]);
        let is_better = dk.len() > 0 && (fallback.len() == 0 || lex_gt_chars(&dk, &fallback));
        let matched = crate::allergen::vec_chars_eq(&dk, &today_chars);
        if is_better {
            fallback = dk;
        } else if matched {
            // dk == today but not a new maximum; fallback unchanged
        }
        if matched {
            let day = &days[i];
            let lunch_time = norm_opt_string(&day.lunch_time);
            let menus: Vec<MenuGroup> = match &day.set_menus {
                Some(s) => normalize_menus(s),
                None => {
                    let empty_menus: Vec<ApiSetMenu> = Vec::new();
                    proof {
                        assert(empty_menus@.map_values(|m: ApiSetMenu| m@)
                            =~= Seq::<ApiSetMenuView>::empty());
                    }
                    normalize_menus(&empty_menus)
                },
            };
            let today_string = String::from_str(today);
            let payload_date = String::from_str(today);
            let menu = TodayMenu { date_iso: today_string, lunch_time, menus };
            let r = FetchOutput {
                ok: true,
                error_message: String::new(),
                today_menu: Some(menu),
                restaurant_name,
                restaurant_url,
                provider: Provider::Compass,
                raw_json,
                payload_date,
            };
            proof {
                let scan0 = spec_day_scan(sdays, 0, today@, Seq::empty());
                assert(dk@ == spec_day_date_key(sdays[i as int]));
                assert(spec_day_scan(sdays, i as int, today@, fb_pre).0 == Some(i as int));
                assert(scan0.0 == Some(i as int));
                assert(r@.today_menu matches Option::Some(m) && m == TodayMenuView {
                    date_iso: today@,
                    lunch_time: spec_norm_opt(sdays[i as int].lunch_time),
                    menus: spec_normalize_menus(
                        match sdays[i as int].set_menus {
                            Option::Some(s) => s,
                            Option::None => Seq::<ApiSetMenuView>::empty(),
                        },
                    ),
                });
            }
            return r;
        }
        i += 1;
    }
    let payload_date = chars_to_string(&fallback);
    FetchOutput {
        ok: true,
        error_message: String::new(),
        today_menu: None,
        restaurant_name,
        restaurant_url,
        provider: Provider::Compass,
        raw_json,
        payload_date,
    }
}

/// Parse a raw day-indexed feed payload for `today`: a decode failure is
/// an error outcome carrying the raw payload; a decoded feed goes through
/// `parse_response`.
pub fn parse_compass_payload(text: &str, today: &str) -> (r: FetchOutput)
    ensures
        ({
            let failed = r@.ok == false && r@.today_menu is None && r@.raw_json == text@
                && r@.payload_date == Seq::<char>::empty() && r@.restaurant_name == Seq::<
                char,
            >::empty() && r@.restaurant_url == Seq::<char>::empty() && r@.provider
                == Provider::Compass;
            match json_of(text@) {
                Option::None => failed,
                Option::Some(v) => match spec_api_response_of(v) {
                    Option::None => failed,
                    Option::Some(api) => r@ == spec_parse_response(api, text@, today@),
                },
            }
        }),
{
    let raw = String::from_str(text);
    match parse_json(text) {
        Err(e) => FetchOutput {
            ok: false,
            error_message: e,
            today_menu: None,
            restaurant_name: String::new(),
            restaurant_url: String::new(),
            provider: Provider::Compass,
            raw_json: raw,
            payload_date: String::new(),
        },
        Ok(v) => match api_response_of(&v) {
            Err(e) => FetchOutput {
                ok: false,
                error_message: e,
                today_menu: None,
                restaurant_name: String::new(),
                restaurant_url: String::new(),
                provider: Provider::Compass,
                raw_json: raw,
                payload_date: String::new(),
            },
            Ok(api) => parse_response(api, raw, today),
        },
    }
}

/// Adjacent entries stand in ascending `(sort key, original index)` order.
pub open spec fn keyed_ordered(s: Seq<(int, int, ApiSetMenuView)>) -> bool {
    forall|i: int| 0 <= i && i + 1 < s.len() ==> key_le(#[trigger] s[i], s[i + 1])
}

proof fn lemma_sorted_insert_ordered(
    x: (int, int, ApiSetMenuView),
    s: Seq<(int, int, ApiSetMenuView)>,
)
    requires
        keyed_ordered(s),
    ensures
        keyed_ordered(sorted_insert(x, s)),
    decreases s.len(),
{
    let r = sorted_insert(x, s);
    if s.len() == 0 {
        assert(keyed_ordered(r));
    } else if key_le(x, s[0]) {
        assert(r =~= seq![x] + s);
        assert forall|i: int| 0 <= i && i + 1 < r.len() implies key_le(#[trigger] r[i], r[i + 1])
            by {
            if i == 0 {
                assert(r[0] == x && r[1] == s[0]);
            } else {
                assert(r[i] == s[i - 1] && r[i + 1] == s[i]);
            }
        }
    } else {
        let rest = s.drop_first();
        assert forall|i: int| 0 <= i && i + 1 < rest.len() implies key_le(
            #[trigger] rest[i],
            rest[i + 1],
        ) by {
            assert(rest[i] == s[i + 1] && rest[i + 1] == s[i + 2]);
        }
        lemma_sorted_insert_ordered(x, rest);
        let ri = sorted_insert(x, rest);
        assert(r =~= seq![s[0]] + ri);
        assert(ri.len() > 0);
        assert(key_le(s[0], ri[0])) by {
            if rest.len() == 0 {
                assert(ri[0] == x);
            } else if key_le(x, rest[0]) {
                assert(ri[0] == x);
            } else {
                assert(ri[0] == rest[0]);
                assert(rest[0] == s[1]);
            }
        }
        assert forall|i: int| 0 <= i && i + 1 < r.len() implies key_le(#[trigger] r[i], r[i + 1])
            by {
            if i == 0 {
                assert(r[0] == s[0] && r[1] == ri[0]);
            } else {
                assert(r[i] == ri[i - 1] && r[i + 1] == ri[i]);
            }
        }
    }
}

/// Law: with a sort order present, the reordering places the keyed
/// sub-menus in ascending `(sort order or index, index)` order; the index
/// tie-break makes the order unique, so entries without a sort order keep
/// their relative positions.
pub proof fn lemma_sort_keyed_ordered(s: Seq<(int, int, ApiSetMenuView)>)
    ensures
        keyed_ordered(sort_keyed(s)),
    decreases s.len(),
{
    if s.len() > 0 {
        lemma_sort_keyed_ordered(s.drop_last());
        lemma_sorted_insert_ordered(s.last(), sort_keyed(s.drop_last()));
    }
}

/// Law: when no sub-menu carries a sort order, normalization keeps the
/// original order: the result is each sub-menu normalized in place, with
/// only the empty-component groups removed.
pub proof fn lemma_unsorted_menus_keep_order(s: Seq<ApiSetMenuView>)
    requires
        !has_any_sort_order(s),
    ensures
        spec_normalize_menus(s) == nonempty_groups(
            s.map_values(|m: ApiSetMenuView| spec_normalize_group(m)),
        ),
{
    let trips = keyed_menus(s);
    assert(trips.map_values(|t: (int, int, ApiSetMenuView)| spec_normalize_group(t.2))
        =~= s.map_values(|m: ApiSetMenuView| spec_normalize_group(m))) by {
        assert forall|i: int| 0 <= i < s.len() implies trips.map_values(
            |t: (int, int, ApiSetMenuView)| spec_normalize_group(t.2),
        )[i] == spec_normalize_group(s[i]) by {
            assert(trips[i].2 == s[i]);
        }
    }
}

/// Law: every group that normalization yields has at least one component,
/// as the menu's invariant asks.
pub proof fn lemma_normalized_groups_nonempty(s: Seq<ApiSetMenuView>)
    ensures
        forall|i: int|
            0 <= i < spec_normalize_menus(s).len() ==> (#[trigger] spec_normalize_menus(
                s,
            )[i]).components.len() > 0,
{
    let trips = keyed_menus(s);
    let ordered = if has_any_sort_order(s) {
        sort_keyed(trips)
    } else {
        trips
    };
    lemma_nonempty_groups_nonempty(
        ordered.map_values(|t: (int, int, ApiSetMenuView)| spec_normalize_group(t.2)),
    );
}

proof fn lemma_nonempty_groups_nonempty(gs: Seq<MenuGroupView>)
    ensures
        forall|i: int|
            0 <= i < nonempty_groups(gs).len() ==> (#[trigger] nonempty_groups(
                gs,
            )[i]).components.len() > 0,
    decreases gs.len(),
{
    if gs.len() > 0 {
        lemma_nonempty_groups_nonempty(gs.drop_first());
        let r = nonempty_groups(gs);
        let rest = nonempty_groups(gs.drop_first());
        if gs[0].components.len() > 0 {
            assert forall|i: int| 0 <= i < r.len() implies (#[trigger] r[i]).components.len() > 0
                by {
                if i > 0 {
                    assert(r[i] == rest[i - 1]);
                }
            }
        }
    }
}

} // verus!

use vstd::prelude::*;

use crate::casefold::{is_alpha, char_is_alphabetic, to_upper, upper_of};
use crate::controller::{AppState, FetchStatus, spec_catalog_index};
use crate::display::{
    date_and_time_line, menu_heading, spec_date_and_time_line, spec_menu_heading, spec_text_for,
    text_for,
};
use crate::model::{MenuGroup, MenuGroupView, TodayMenu, TodayMenuView};
use crate::price::{
    spec_first_student_cents, spec_price_entries, student_price_cents, PriceGroups,
};
use crate::allergen::{spec_split_component_suffix, split_component_suffix};
use crate::restaurant::{available_restaurants, spec_catalog, Provider, Restaurant};
use crate::text::{
    chars_to_string, dec_digits, norm_ws, normalize_chars, normalize_text, push_all, str_to_chars,
    u32_to_chars,
};

verus! {

/// How long a load must have been running before the loading hint shows.
pub open spec fn loading_hint_delay_ms() -> int {
    250
}

/// The popup header buttons a click can land on.
#[derive(Debug, Clone, Copy, PartialEq, Eq, Structural)]
pub enum HeaderButtonAction {
    Prev,
    Next,
    Close,
}

/// One rendered popup line.
pub enum Line {
    Heading(String),
    Text(String),
    TextWithSuffixSegments { main: String, segments: Vec<(String, bool)> },
    Spacer,
}

/// The mathematical value of one rendered line.
pub enum LineView {
    Heading(Seq<char>),
    Text(Seq<char>),
    TextWithSuffixSegments { main: Seq<char>, segments: Seq<(Seq<char>, bool)> },
    Spacer,
}

pub open spec fn line_view(l: Line) -> LineView {
    match l {
        Line::Heading(s) => LineView::Heading(s@),
        Line::Text(s) => LineView::Text(s@),
        Line::TextWithSuffixSegments { main, segments } => LineView::TextWithSuffixSegments {
            main: main@,
            segments: segments@.map_values(|p: (String, bool)| (p.0@, p.1)),
        },
        Line::Spacer => LineView::Spacer,
    }
}

/// Whether one allergen mark is highlighted under the current toggles.
pub open spec fn spec_token_highlight(tok: Seq<char>, hg: bool, hv: bool, hl: bool) -> bool {
    (upper_of(tok) == "G"@ && hg) || (upper_of(tok) == "VEG"@ && hv) || (upper_of(tok) == "L"@
        && hl)
}

/// Walk a suffix text splitting it into alphabetic runs (candidate marks,
/// highlighted per the toggles) and the punctuation between them.
pub open spec fn spec_seg_loop(
    s: Seq<char>,
    i: int,
    cur: Seq<char>,
    token_mode: bool,
    hg: bool,
    hv: bool,
    hl: bool,
) -> Seq<(Seq<char>, bool)>
    decreases s.len() - i,
{
    if i < 0 || i >= s.len() {
        if cur.len() == 0 {
            Seq::empty()
        } else if token_mode {
            seq![(cur, spec_token_highlight(cur, hg, hv, hl))]
        } else {
            seq![(cur, false)]
        }
    } else {
        let c = s[i];
        if is_alpha(c) {
            if !token_mode {
                let flushed: Seq<(Seq<char>, bool)> = if cur.len() > 0 {
                    seq![(cur, false)]
                } else {
                    Seq::empty()
                };
                flushed + spec_seg_loop(s, i + 1, seq![c], true, hg, hv, hl)
            } else {
                spec_seg_loop(s, i + 1, cur.push(c), true, hg, hv, hl)
            }
        } else {
            if token_mode {
                let flushed: Seq<(Seq<char>, bool)> = if cur.len() > 0 {
                    seq![(cur, spec_token_highlight(cur, hg, hv, hl))]
                } else {
                    Seq::empty()
                };
                flushed + spec_seg_loop(s, i + 1, seq![c], false, hg, hv, hl)
            } else {
                spec_seg_loop(s, i + 1, cur.push(c), false, hg, hv, hl)
            }
        }
    }
}

pub open spec fn spec_build_suffix_segments(suffix: Seq<char>, hg: bool, hv: bool, hl: bool) -> Seq<
    (Seq<char>, bool),
> {
    spec_seg_loop(suffix, 0, Seq::empty(), false, hg, hv, hl)
}

/// Split an allergen suffix into segments, marking the highlighted marks.
pub fn build_suffix_segments(suffix: &str, hg: bool, hv: bool, hl: bool) -> (out: Vec<
    (String, bool),
>)
    ensures
        out@.map_values(|p: (String, bool)| (p.0@, p.1)) == spec_build_suffix_segments(
            suffix@,
            hg,
            hv,
            hl,
        ),
{
    let s = str_to_chars(suffix);
    let mut out: Vec<(String, bool)> = Vec::new();
    let mut cur: Vec<char> = Vec::new();
    let mut token_mode = false;
    let mut i: usize = 0;
    proof {
        assert(cur@ =~= Seq::<char>::empty());
        assert(out@.map_values(|p: (String, bool)| (p.0@, p.1)) =~= Seq::<(Seq<char>, bool)>::empty());
        assert(out@.map_values(|p: (String, bool)| (p.0@, p.1)) + spec_seg_loop(
            s@,
            0,
            cur@,
            false,
            hg,
            hv,
            hl,
        ) =~= spec_seg_loop(s@, 0, cur@, false, hg, hv, hl));
    }
    while i < s.len()
        invariant
            i <= s@.len(),
            s@ == suffix@,
            spec_build_suffix_segments(suffix@, hg, hv, hl) == out@.map_values(
                |p: (String, bool)| (p.0@, p.1),
            ) + spec_seg_loop(s@, i as int, cur@, token_mode, hg, hv, hl),
        decreases s@.len() - i,
    {
        let c = s[i];
        if char_is_alphabetic(c) {
            if !token_mode {
                if cur.len() > 0 {
                    let ghost pre = out@;
                    let ghost cv = cur@;
                    let done = chars_to_string(&cur);
                    out.push((done, false));
                    proof {
                        assert(out@.map_values(|p: (String, bool)| (p.0@, p.1)) =~= pre.map_values(
                            |p: (String, bool)| (p.0@, p.1),
                        ) + seq![(cv, false)]);
                        assert((pre.map_values(|p: (String, bool)| (p.0@, p.1)) + seq![
                            (cv, false),
                        ]) + spec_seg_loop(s@, i + 1, seq![s@[i as int]], true, hg, hv, hl)
                            =~= pre.map_values(|p: (String, bool)| (p.0@, p.1)) + (seq![
                            (cv, false),
                        ] + spec_seg_loop(s@, i + 1, seq![s@[i as int]], true, hg, hv, hl)));
                    }
                }
                cur = Vec::new();
                cur.push(c);
                proof {
                    assert(cur@ =~= seq![s@[i as int]]);
                }
                token_mode = true;
            } else {
                cur.push(c);
            }
        } else {
            if token_mode {
                if cur.len() > 0 {
                    let ghost pre = out@;
                    let ghost cv = cur@;
                    let token = chars_to_string(&cur);
                    let u = to_upper(token.as_str());
                    let hi = (crate::text::str_eq(u.as_str(), "G") && hg) || (crate::text::str_eq(
                        u.as_str(),
                        "VEG",
                    ) && hv) || (crate::text::str_eq(u.as_str(), "L") && hl);
                    proof {
                        assert(hi == spec_token_highlight(cv, hg, hv, hl));
                    }
                    out.push((token, hi));
                    proof {
                        assert(out@.map_values(|p: (String, bool)| (p.0@, p.1)) =~= pre.map_values(
                            |p: (String, bool)| (p.0@, p.1),
                        ) + seq![(cv, spec_token_highlight(cv, hg, hv, hl))]);
                        assert((pre.map_values(|p: (String, bool)| (p.0@, p.1)) + seq![
                            (cv, spec_token_highlight(cv, hg, hv, hl)),
                        ]) + spec_seg_loop(s@, i + 1, seq![s@[i as int]], false, hg, hv, hl)
                            =~= pre.map_values(|p: (String, bool)| (p.0@, p.1)) + (seq![
                            (cv, spec_token_highlight(cv, hg, hv, hl)),
                        ] + spec_seg_loop(s@, i + 1, seq![s@[i as int]], false, hg, hv, hl)));
                    }
                }
                cur = Vec::new();
                cur.push(c);
                proof {
                    assert(cur@ =~= seq![s@[i as int]]);
                }
                token_mode = false;
            } else {
                cur.push(c);
            }
        }
        i += 1;
    }
    if cur.len() > 0 {
        if token_mode {
            let ghost pre = out@;
            let ghost cv = cur@;
            let token = chars_to_string(&cur);
            let u = to_upper(token.as_str());
            let hi = (crate::text::str_eq(u.as_str(), "G") && hg) || (crate::text::str_eq(
                u.as_str(),
                "VEG",
            ) && hv) || (crate::text::str_eq(u.as_str(), "L") && hl);
            proof {
                assert(hi == spec_token_highlight(cv, hg, hv, hl));
            }
            out.push((token, hi));
            proof {
                assert(out@.map_values(|p: (String, bool)| (p.0@, p.1)) =~= pre.map_values(
                    |p: (String, bool)| (p.0@, p.1),
                ) + seq![(cv, spec_token_highlight(cv, hg, hv, hl))]);
            }
        } else {
            let ghost pre = out@;
            let ghost cv = cur@;
            let done = chars_to_string(&cur);
            out.push((done, false));
            proof {
                assert(out@.map_values(|p: (String, bool)| (p.0@, p.1)) =~= pre.map_values(
                    |p: (String, bool)| (p.0@, p.1),
                ) + seq![(cv, false)]);
            }
        }
    } else {
        proof {
            assert(out@.map_values(|p: (String, bool)| (p.0@, p.1)) + Seq::<(
                Seq<char>,
                bool,
            )>::empty() =~= out@.map_values(|p: (String, bool)| (p.0@, p.1)));
        }
    }
    out
}

/// A main text and its segments flattened back into one plain line.
pub open spec fn spec_flatten_segments(segs: Seq<(Seq<char>, bool)>, i: int) -> Seq<char>
    decreases segs.len() - i,
{
    if i < 0 || i >= segs.len() {
        Seq::empty()
    } else {
        segs[i].0 + spec_flatten_segments(segs, i + 1)
    }
}

pub open spec fn spec_flatten_text_with_suffix(
    main: Seq<char>,
    segs: Seq<(Seq<char>, bool)>,
) -> Seq<char> {
    norm_ws(main) + spec_flatten_segments(segs, 0)
}

pub fn flatten_text_with_suffix(main: &str, segments: &Vec<(String, bool)>) -> (r: String)
    ensures
        r@ == spec_flatten_text_with_suffix(
            main@,
            segments@.map_values(|p: (String, bool)| (p.0@, p.1)),
        ),
{
    let ghost segs = segments@.map_values(|p: (String, bool)| (p.0@, p.1));
    let mc = str_to_chars(main);
    let mut out = normalize_chars(&mc);
    let mut i: usize = 0;
    proof {
        assert(out@ + spec_flatten_segments(segs, 0) =~= norm_ws(main@) + spec_flatten_segments(
            segs,
            0,
        ));
    }
    while i < segments.len()
        invariant
            i <= segments@.len(),
            segs == segments@.map_values(|p: (String, bool)| (p.0@, p.1)),
            spec_flatten_text_with_suffix(main@, segs) == out@ + spec_flatten_segments(
                segs,
                i as int,
            ),
        decreases segments@.len() - i,
    {
        proof {
            assert(segs[i as int].0 == segments@[i as int].0@);
        }
        push_all(&mut out, &str_to_chars(segments[i].0.as_str()));
        i += 1;
    }
    proof {
        assert(out@ + Seq::<char>::empty() =~= out@);
    }
    chars_to_string(&out)
}

/// The popup's title: the selected restaurant's catalog name with its
/// position in the cycle order.
pub open spec fn spec_header_title(st: AppState) -> Seq<char> {
    let cat = spec_catalog(st.settings.enable_antell_restaurants);
    if cat.len() == 0 {
        "Compass Lunch"@
    } else {
        let idx = spec_catalog_index(cat, st.settings.restaurant_code@);
        cat[idx].name + " ("@ + dec_digits(idx + 1) + seq!['/'] + dec_digits(cat.len() as int)
            + seq![')']
    }
}

pub fn header_title(state: &AppState) -> (r: String)
    ensures
        r@ == spec_header_title(*state),
{
    let list = available_restaurants(state.settings.enable_antell_restaurants);
    let ghost cat = spec_catalog(state.settings.enable_antell_restaurants);
    if list.len() == 0 {
        return String::from_str("Compass Lunch");
    }
    let mut idx: usize = 0;
    let mut found = false;
    let mut i: usize = 0;
    while i < list.len() && !found
        invariant
            i <= list@.len(),
            list@.map_values(|x: Restaurant| x@) == cat,
            cat == spec_catalog(state.settings.enable_antell_restaurants),
            if found {
                idx < list@.len() && spec_catalog_index(cat, state.settings.restaurant_code@)
                    == idx as int
            } else {
                idx == 0 && forall|j: int|
                    0 <= j < i ==> (#[trigger] cat[j].code) != state.settings.restaurant_code@
            },
        decreases list@.len() - i + (if found { 0int } else { 1int }),
    {
        if crate::text::str_eq(list[i].code, state.settings.restaurant_code.as_str()) {
            proof {
                assert(cat[i as int].code == state.settings.restaurant_code@);
                crate::controller::lemma_catalog_index_at(
                    cat,
                    state.settings.restaurant_code@,
                    i as int,
                );
            }
            idx = i;
            found = true;
        } else {
            i += 1;
        }
    }
    proof {
        if !found {
            crate::controller::lemma_catalog_index_none(cat, state.settings.restaurant_code@);
        }
    }
    let chosen = list[idx];
    proof {
        assert(chosen@ == cat[idx as int]);
    }
    let mut out: Vec<char> = Vec::new();
    push_all(&mut out, &str_to_chars(chosen.name));
    push_all(&mut out, &str_to_chars(" ("));
    proof {
        assert(cat.len() <= 7);
        assert(idx < cat.len());
    }
    let pos = u32_to_chars((idx + 1) as u32);
    push_all(&mut out, &pos);
    out.push('/');
    let total = u32_to_chars(list.len() as u32);
    push_all(&mut out, &total);
    out.push(')');
    proof {
        assert(out@ =~= cat[idx as int].name + " ("@ + dec_digits(idx + 1) + seq!['/']
            + dec_digits(cat.len() as int) + seq![')']);
    }
    chars_to_string(&out)
}

/// One component rendered: its main text (the whole component when the
/// split yields no main text) behind a bullet, with suffix segments when
/// allergens are shown and a suffix exists.
pub open spec fn spec_component_line(
    comp: Seq<char>,
    show_allergens: bool,
    hg: bool,
    hv: bool,
    hl: bool,
) -> Option<LineView> {
    let c = norm_ws(comp);
    if c.len() == 0 {
        None
    } else {
        let sp = spec_split_component_suffix(c);
        let main_text = if sp.0.len() == 0 {
            c
        } else {
            sp.0
        };
        if !show_allergens {
            Some(LineView::Text("\u{25b8} "@ + main_text))
        } else if sp.1.len() > 0 {
            Some(
                LineView::TextWithSuffixSegments {
                    main: "\u{25b8} "@ + main_text,
                    segments: spec_build_suffix_segments(sp.1, hg, hv, hl),
                },
            )
        } else {
            Some(LineView::Text("\u{25b8} "@ + main_text))
        }
    }
}

pub open spec fn spec_component_lines(
    comps: Seq<Seq<char>>,
    i: int,
    show_allergens: bool,
    hg: bool,
    hv: bool,
    hl: bool,
) -> Seq<LineView>
    decreases comps.len() - i,
{
    if i < 0 || i >= comps.len() {
        Seq::empty()
    } else {
        let rest = spec_component_lines(comps, i + 1, show_allergens, hg, hv, hl);
        match spec_component_line(comps[i], show_allergens, hg, hv, hl) {
            Option::Some(l) => seq![l] + rest,
            Option::None => rest,
        }
    }
}

/// A day-feed group is hidden when expensive student meals are hidden and
/// its student price parses above four euros.
pub open spec fn spec_group_hidden(
    g: MenuGroupView,
    provider: Provider,
    hide_expensive_student_meals: bool,
) -> bool {
    provider == Provider::Compass && hide_expensive_student_meals && match spec_first_student_cents(
        spec_price_entries(g.price),
    ) {
        Option::Some(c) => c > 400,
        Option::None => false,
    }
}

pub open spec fn spec_group_lines(
    menus: Seq<MenuGroupView>,
    i: int,
    provider: Provider,
    show_prices: bool,
    groups: PriceGroups,
    show_allergens: bool,
    hg: bool,
    hv: bool,
    hl: bool,
    hide_expensive_student_meals: bool,
) -> Seq<LineView>
    decreases menus.len() - i,
{
    if i < 0 || i >= menus.len() {
        Seq::empty()
    } else {
        let rest = spec_group_lines(
            menus,
            i + 1,
            provider,
            show_prices,
            groups,
            show_allergens,
            hg,
            hv,
            hl,
            hide_expensive_student_meals,
        );
        if spec_group_hidden(menus[i], provider, hide_expensive_student_meals) {
            rest
        } else {
            seq![LineView::Heading(spec_menu_heading(menus[i], provider, show_prices, groups))]
                + spec_component_lines(menus[i].components, 0, show_allergens, hg, hv, hl) + rest
        }
    }
}

fn component_lines(
    comps: &Vec<String>,
    show_allergens: bool,
    hg: bool,
    hv: bool,
    hl: bool,
) -> (out: Vec<Line>)
    ensures
        out@.map_values(|l: Line| line_view(l)) == spec_component_lines(
            comps@.map_values(|s: String| s@),
            0,
            show_allergens,
            hg,
            hv,
            hl,
        ),
{
    let ghost scomps = comps@.map_values(|s: String| s@);
    let mut out: Vec<Line> = Vec::new();
    let mut i: usize = 0;
    proof {
        assert(out@.map_values(|l: Line| line_view(l)) =~= Seq::<LineView>::empty());
        assert(out@.map_values(|l: Line| line_view(l)) + spec_component_lines(
            scomps,
            0,
            show_allergens,
            hg,
            hv,
            hl,
        ) =~= spec_component_lines(scomps, 0, show_allergens, hg, hv, hl));
    }
    while i < comps.len()
        invariant
            i <= comps@.len(),
            scomps == comps@.map_values(|s: String| s@),
            spec_component_lines(scomps, 0, show_allergens, hg, hv, hl) == out@.map_values(
                |l: Line| line_view(l),
            ) + spec_component_lines(scomps, i as int, show_allergens, hg, hv, hl),
        decreases comps@.len() - i,
    {
        proof {
            assert(scomps[i as int] == comps@[i as int]@);
        }
        let c = normalize_text(comps[i].as_str());
        if c.as_str().unicode_len() == 0 {
            assert(c@.len() == 0);
        } else {
            assert(c@.len() > 0);
            let (main, suffix) = split_component_suffix(c.as_str());
            let main_text: String = if main.as_str().unicode_len() == 0 {
                assert(main@.len() == 0);
                String::from_str(c.as_str())
            } else {
                assert(main@.len() > 0);
                main
            };
            let mut bullet: Vec<char> = Vec::new();
            push_all(&mut bullet, &str_to_chars("\u{25b8} "));
            push_all(&mut bullet, &str_to_chars(main_text.as_str()));
            proof {
                assert(bullet@ =~= "\u{25b8} "@ + main_text@);
            }
            let bullet_text = chars_to_string(&bullet);
            let line: Line = if !show_allergens {
                Line::Text(bullet_text)
            } else if suffix.as_str().unicode_len() > 0 {
                assert(suffix@.len() > 0);
                let segments = build_suffix_segments(suffix.as_str(), hg, hv, hl);
                Line::TextWithSuffixSegments { main: bullet_text, segments }
            } else {
                assert(suffix@.len() == 0);
                Line::Text(bullet_text)
            };
            let ghost lv = line_view(line);
            let ghost pre = out@;
            proof {
                assert(spec_component_line(scomps[i as int], show_allergens, hg, hv, hl) == Some(
                    lv,
                ));
            }
            out.push(line);
            proof {
                assert(out@.map_values(|l: Line| line_view(l)) =~= pre.map_values(
                    |l: Line| line_view(l),
                ) + seq![lv]);
                assert((pre.map_values(|l: Line| line_view(l)) + seq![lv]) + spec_component_lines(
                    scomps,
                    i + 1,
                    show_allergens,
                    hg,
                    hv,
                    hl,
                ) =~= pre.map_values(|l: Line| line_view(l)) + (seq![lv] + spec_component_lines(
                    scomps,
                    i + 1,
                    show_allergens,
                    hg,
                    hv,
                    hl,
                )));
            }
        }
        i += 1;
    }
    proof {
        assert(out@.map_values(|l: Line| line_view(l)) + Seq::<LineView>::empty()
            =~= out@.map_values(|l: Line| line_view(l)));
    }
    out
}

/// Append each visible menu group's heading and component lines.
pub fn append_menus(
    lines: &mut Vec<Line>,
    menu: &TodayMenu,
    provider: Provider,
    show_prices: bool,
    price_groups: PriceGroups,
    show_allergens: bool,
    hg: bool,
    hv: bool,
    hl: bool,
    hide_expensive_student_meals: bool,
)
    ensures
        final(lines)@.map_values(|l: Line| line_view(l)) == old(lines)@.map_values(
            |l: Line| line_view(l),
        ) + spec_group_lines(
            menu@.menus,
            0,
            provider,
            show_prices,
            price_groups,
            show_allergens,
            hg,
            hv,
            hl,
            hide_expensive_student_meals,
        ),
{
    let ghost smenus = menu@.menus;
    let ghost base = lines@.map_values(|l: Line| line_view(l));
    let mut i: usize = 0;
    proof {
        assert(smenus == menu.menus@.map_values(|m: MenuGroup| m@));
        assert(base + spec_group_lines(
            smenus,
            0,
            provider,
            show_prices,
            price_groups,
            show_allergens,
            hg,
            hv,
            hl,
            hide_expensive_student_meals,
        ) =~= base + spec_group_lines(
            smenus,
            0,
            provider,
            show_prices,
            price_groups,
            show_allergens,
            hg,
            hv,
            hl,
            hide_expensive_student_meals,
        ));
    }
    while i < menu.menus.len()
        invariant
            i <= menu.menus@.len(),
            smenus == menu.menus@.map_values(|m: MenuGroup| m@),
            base + spec_group_lines(
                smenus,
                0,
                provider,
                show_prices,
                price_groups,
                show_allergens,
                hg,
                hv,
                hl,
                hide_expensive_student_meals,
            ) == lines@.map_values(|l: Line| line_view(l)) + spec_group_lines(
                smenus,
                i as int,
                provider,
                show_prices,
                price_groups,
                show_allergens,
                hg,
                hv,
                hl,
                hide_expensive_student_meals,
            ),
        decreases menu.menus@.len() - i,
    {
        let group = &menu.menus[i];
        proof {
            assert(smenus[i as int] == menu.menus@[i as int]@);
        }
        let is_compass = match provider {
            Provider::Compass => true,
            _ => false,
        };
        let mut hidden = false;
        if is_compass && hide_expensive_student_meals {
            match student_price_cents(group.price.as_str()) {
                Some(cents) => {
                    if cents > 400 {
                        hidden = true;
                    }
                },
                None => {},
            }
        }
        proof {
            assert(hidden == spec_group_hidden(
                smenus[i as int],
                provider,
                hide_expensive_student_meals,
            ));
        }
        if !hidden {
            let heading = menu_heading(group, provider, show_prices, price_groups);
            let ghost pre1 = lines@;
            lines.push(Line::Heading(heading));
            proof {
                assert(lines@.map_values(|l: Line| line_view(l)) =~= pre1.map_values(
                    |l: Line| line_view(l),
                ) + seq![
                    LineView::Heading(
                        spec_menu_heading(smenus[i as int], provider, show_prices, price_groups),
                    ),
                ]);
            }
            let comp = component_lines(&group.components, show_allergens, hg, hv, hl);
            let ghost pre2 = lines@;
            let ghost compv = comp@.map_values(|l: Line| line_view(l));
            let mut k: usize = 0;
            let n = comp.len();
            let mut comp = comp;
            while k < n
                invariant
                    k <= n,
                    n == comp@.len(),
                    compv == comp@.map_values(|l: Line| line_view(l)),
                    lines@.map_values(|l: Line| line_view(l)) == pre2.map_values(
                        |l: Line| line_view(l),
                    ) + compv.take(k as int),
                decreases n - k,
            {
                let ghost pre3 = lines@;
                let item = copy_line(&comp[k]);
                proof {
                    assert(line_view(item) == compv[k as int]);
                }
                lines.push(item);
                proof {
                    assert(lines@.map_values(|l: Line| line_view(l)) =~= pre3.map_values(
                        |l: Line| line_view(l),
                    ).push(compv[k as int]));
                    assert(compv.take(k + 1) =~= compv.take(k as int).push(compv[k as int]));
                    assert(pre2.map_values(|l: Line| line_view(l)) + compv.take(k as int).push(
                        compv[k as int],
                    ) =~= (pre2.map_values(|l: Line| line_view(l)) + compv.take(k as int)).push(
                        compv[k as int],
                    ));
                }
                k += 1;
            }
            proof {
                assert(compv.take(n as int) =~= compv);
                let f = |l: Line| line_view(l);
                let head = seq![
                    LineView::Heading(
                        spec_menu_heading(smenus[i as int], provider, show_prices, price_groups),
                    ),
                ];
                let rest_i1 = spec_group_lines(
                    smenus,
                    i + 1,
                    provider,
                    show_prices,
                    price_groups,
                    show_allergens,
                    hg,
                    hv,
                    hl,
                    hide_expensive_student_meals,
                );
                assert(lines@.map_values(f) =~= pre1.map_values(f) + head + compv);
                assert((pre1.map_values(f) + head + compv) + rest_i1 =~= pre1.map_values(f) + ((head
                    + compv) + rest_i1));
            }
        }
        i += 1;
    }
    proof {
        assert(lines@.map_values(|l: Line| line_view(l)) + Seq::<LineView>::empty()
            =~= lines@.map_values(|l: Line| line_view(l)));
    }
}

fn copy_line(l: &Line) -> (r: Line)
    ensures
        line_view(r) == line_view(*l),
{
    match l {
        Line::Heading(s) => Line::Heading(String::from_str(s.as_str())),
        Line::Text(s) => Line::Text(String::from_str(s.as_str())),
        Line::TextWithSuffixSegments { main, segments } => {
            let mut segs: Vec<(String, bool)> = Vec::new();
            let mut i: usize = 0;
            proof {
                assert(segs@.map_values(|p: (String, bool)| (p.0@, p.1)) =~= segments@.map_values(
                    |p: (String, bool)| (p.0@, p.1),
                ).take(0));
            }
            while i < segments.len()
                invariant
                    i <= segments@.len(),
                    segs@.map_values(|p: (String, bool)| (p.0@, p.1)) == segments@.map_values(
                        |p: (String, bool)| (p.0@, p.1),
                    ).take(i as int),
                decreases segments@.len() - i,
            {
                let item = (String::from_str(segments[i].0.as_str()), segments[i].1);
                let ghost pre = segs@;
                segs.push(item);
                proof {
                    let f = |p: (String, bool)| (p.0@, p.1);
                    assert(segs@.map_values(f) =~= pre.map_values(f).push(
                        f(segments@[i as int]),
                    ));
                    assert(segments@.map_values(f).take(i + 1) =~= segments@.map_values(f).take(
                        i as int,
                    ).push(segments@.map_values(f)[i as int]));
                }
                i += 1;
            }
            proof {
                assert(segments@.map_values(|p: (String, bool)| (p.0@, p.1)).take(
                    segments@.len() as int,
                ) =~= segments@.map_values(|p: (String, bool)| (p.0@, p.1)));
            }
            Line::TextWithSuffixSegments { main: String::from_str(main.as_str()), segments: segs }
        },
        Line::Spacer => Line::Spacer,
    }
}

pub open spec fn menu_view_opt(m: Option<TodayMenu>) -> Option<TodayMenuView> {
    match m {
        Option::Some(x) => Some(x@),
        Option::None => None,
    }
}

/// The staleness marker, the delayed loading hint and the date line.
pub open spec fn spec_front_lines(st: AppState, now_ms: i64) -> Seq<LineView> {
    let lang = st.settings.language@;
    let stale_part: Seq<LineView> = if st.stale_date {
        seq![LineView::Heading("[STALE]"@)]
    } else {
        Seq::empty()
    };
    let show_hint = st.status == FetchStatus::Loading && st.today_menu is None
        && st.loading_started_epoch_ms > 0 && now_ms - st.loading_started_epoch_ms
        >= loading_hint_delay_ms();
    let hint_part: Seq<LineView> = if show_hint {
        seq![LineView::Text(spec_text_for(lang, "loading"@))]
    } else {
        Seq::empty()
    };
    let dl = spec_date_and_time_line(menu_view_opt(st.today_menu), lang);
    let date_part: Seq<LineView> = if dl.len() > 0 {
        seq![LineView::Heading(dl)]
    } else {
        Seq::empty()
    };
    stale_part + hint_part + date_part
}

/// The menu groups, or the no-menu message outside a load.
pub open spec fn spec_menu_part(st: AppState) -> Seq<LineView> {
    let lang = st.settings.language@;
    let no_menu: Seq<LineView> = if st.status != FetchStatus::Loading {
        seq![LineView::Text(spec_text_for(lang, "noMenu"@))]
    } else {
        Seq::empty()
    };
    match st.today_menu {
        Option::Some(m) => if m@.menus.len() > 0 {
            spec_group_lines(
                m@.menus,
                0,
                st.provider,
                st.settings.show_prices,
                PriceGroups {
                    student: st.settings.show_student_price,
                    staff: st.settings.show_staff_price,
                    guest: st.settings.show_guest_price,
                },
                st.settings.show_allergens,
                st.settings.highlight_gluten_free,
                st.settings.highlight_veg,
                st.settings.highlight_lactose_free,
                st.settings.hide_expensive_student_meals,
            )
        } else {
            no_menu
        },
        Option::None => no_menu,
    }
}

/// The stale explanation and the error line.
pub open spec fn spec_tail_lines(st: AppState) -> Seq<LineView> {
    let lang = st.settings.language@;
    let stale_msg: Seq<LineView> = if st.status == FetchStatus::Stale {
        seq![
            LineView::Spacer,
            LineView::Text(
                spec_text_for(
                    lang,
                    if st.stale_network_error {
                        "staleNetwork"@
                    } else {
                        "stale"@
                    },
                ),
            ),
        ]
    } else {
        Seq::empty()
    };
    let error_part: Seq<LineView> = if st.error_message@.len() > 0 && st.status
        != FetchStatus::Okay {
        seq![
            LineView::Text(spec_text_for(lang, "fetchError"@) + ": "@ + st.error_message@),
        ]
    } else {
        Seq::empty()
    };
    stale_msg + error_part
}

/// Everything the popup shows for a state, top to bottom: a staleness
/// marker, a delayed loading hint, the date line, the menu groups (or the
/// no-menu message), the stale explanation, and the error line.
pub open spec fn spec_build_lines(st: AppState, now_ms: i64) -> Seq<LineView> {
    spec_front_lines(st, now_ms) + spec_menu_part(st) + spec_tail_lines(st)
}

fn push_front_lines(out: &mut Vec<Line>, state: &AppState, now_ms: i64)
    ensures
        final(out)@.map_values(|l: Line| line_view(l)) == old(out)@.map_values(
            |l: Line| line_view(l),
        ) + spec_front_lines(*state, now_ms),
{
    let ghost f = |l: Line| line_view(l);
    let ghost base = out@.map_values(f);
    if state.stale_date {
        let ghost pre = out@;
        out.push(Line::Heading(String::from_str("[STALE]")));
        proof {
            assert(out@.map_values(f) =~= pre.map_values(f) + seq![LineView::Heading("[STALE]"@)]);
        }
    }
    let is_loading = match state.status {
        FetchStatus::Loading => true,
        _ => false,
    };
    let menu_is_none = match &state.today_menu {
        Some(_) => false,
        None => true,
    };
    let show_hint = is_loading && menu_is_none && state.loading_started_epoch_ms > 0 && (now_ms
        as i128) - (state.loading_started_epoch_ms as i128) >= 250;
    if show_hint {
        let ghost pre = out@;
        out.push(Line::Text(text_for(state.settings.language.as_str(), "loading")));
        proof {
            assert(out@.map_values(f) =~= pre.map_values(f) + seq![
                LineView::Text(spec_text_for(state.settings.language@, "loading"@)),
            ]);
        }
    }
    let date_line = date_and_time_line(
        match &state.today_menu {
            Some(m) => Some(m),
            None => None,
        },
        state.settings.language.as_str(),
    );
    if date_line.as_str().unicode_len() > 0 {
        assert(date_line@.len() > 0);
        let ghost pre = out@;
        out.push(Line::Heading(date_line));
        proof {
            assert(out@.map_values(f) =~= pre.map_values(f) + seq![
                LineView::Heading(
                    spec_date_and_time_line(
                        menu_view_opt(state.today_menu),
                        state.settings.language@,
                    ),
                ),
            ]);
        }
    } else {
        assert(date_line@.len() == 0);
    }
    proof {
        assert(out@.map_values(f) =~= base + spec_front_lines(*state, now_ms));
    }
}

fn push_tail_lines(out: &mut Vec<Line>, state: &AppState)
    ensures
        final(out)@.map_values(|l: Line| line_view(l)) == old(out)@.map_values(
            |l: Line| line_view(l),
        ) + spec_tail_lines(*state),
{
    let ghost f = |l: Line| line_view(l);
    let ghost base = out@.map_values(f);
    let is_stale = match state.status {
        FetchStatus::Stale => true,
        _ => false,
    };
    if is_stale {
        let ghost pre = out@;
        out.push(Line::Spacer);
        let key: &str = if state.stale_network_error {
            "staleNetwork"
        } else {
            "stale"
        };
        out.push(Line::Text(text_for(state.settings.language.as_str(), key)));
        proof {
            assert(out@.map_values(f) =~= pre.map_values(f) + seq![
                LineView::Spacer,
                LineView::Text(
                    spec_text_for(
                        state.settings.language@,
                        if state.stale_network_error {
                            "staleNetwork"@
                        } else {
                            "stale"@
                        },
                    ),
                ),
            ]);
        }
    }
    let is_okay = match state.status {
        FetchStatus::Okay => true,
        _ => false,
    };
    if state.error_message.as_str().unicode_len() > 0 && !is_okay {
        assert(state.error_message@.len() > 0);
        let prefix = text_for(state.settings.language.as_str(), "fetchError");
        let mut msg: Vec<char> = Vec::new();
        push_all(&mut msg, &str_to_chars(prefix.as_str()));
        push_all(&mut msg, &str_to_chars(": "));
        push_all(&mut msg, &str_to_chars(state.error_message.as_str()));
        proof {
            assert(msg@ =~= spec_text_for(state.settings.language@, "fetchError"@) + ": "@
                + state.error_message@);
        }
        let ghost pre = out@;
        out.push(Line::Text(chars_to_string(&msg)));
        proof {
            assert(out@.map_values(f) =~= pre.map_values(f) + seq![
                LineView::Text(
                    spec_text_for(state.settings.language@, "fetchError"@) + ": "@
                        + state.error_message@,
                ),
            ]);
        }
    } else {
        if !(state.error_message.as_str().unicode_len() > 0) {
            assert(state.error_message@.len() == 0);
        }
    }
    proof {
        assert(out@.map_values(f) =~= base + spec_tail_lines(*state));
    }
}

/// Render the popup lines for a display state at time `now_ms`.
pub fn build_lines(state: &AppState, now_ms: i64) -> (out: Vec<Line>)
    ensures
        out@.map_values(|l: Line| line_view(l)) == spec_build_lines(*state, now_ms),
{
    let ghost f = |l: Line| line_view(l);
    let mut out: Vec<Line> = Vec::new();
    proof {
        assert(out@.map_values(f) =~= Seq::<LineView>::empty());
        assert(Seq::<LineView>::empty() + spec_front_lines(*state, now_ms) =~= spec_front_lines(
            *state,
            now_ms,
        ));
    }
    push_front_lines(&mut out, state, now_ms);
    let is_loading = match state.status {
        FetchStatus::Loading => true,
        _ => false,
    };
    let mut show_no_menu = false;
    match &state.today_menu {
        Some(menu) => {
            if menu.menus.len() > 0 {
                proof {
                    assert(menu@.menus.len() > 0);
                }
                let price_groups = PriceGroups {
                    student: state.settings.show_student_price,
                    staff: state.settings.show_staff_price,
                    guest: state.settings.show_guest_price,
                };
                append_menus(
                    &mut out,
                    menu,
                    state.provider,
                    state.settings.show_prices,
                    price_groups,
                    state.settings.show_allergens,
                    state.settings.highlight_gluten_free,
                    state.settings.highlight_veg,
                    state.settings.highlight_lactose_free,
                    state.settings.hide_expensive_student_meals,
                );
            } else {
                proof {
                    assert(menu@.menus.len() == 0);
                }
                if !is_loading {
                    show_no_menu = true;
                }
            }
        },
        None => {
            if !is_loading {
                show_no_menu = true;
            }
        },
    }
    if show_no_menu {
        let ghost pre = out@;
        out.push(Line::Text(text_for(state.settings.language.as_str(), "noMenu")));
        proof {
            assert(out@.map_values(f) =~= pre.map_values(f) + seq![
                LineView::Text(spec_text_for(state.settings.language@, "noMenu"@)),
            ]);
        }
    }
    proof {
        assert(out@.map_values(f) =~= spec_front_lines(*state, now_ms) + spec_menu_part(*state));
    }
    push_tail_lines(&mut out, state);
    proof {
        assert((spec_front_lines(*state, now_ms) + spec_menu_part(*state)) + spec_tail_lines(
            *state,
        ) =~= spec_build_lines(*state, now_ms));
    }
    out
}

/// A cached payload still counts as today's: a scraped page goes by the
/// store time's local date (passed in by the caller), the other providers
/// by the payload's own date.
pub open spec fn spec_today_valid_cache(
    parsed: crate::model::FetchOutputView,
    provider: Provider,
    antell_cached_date: Option<Seq<char>>,
    today: Seq<char>,
) -> bool {
    match provider {
        Provider::Antell => match antell_cached_date {
            Option::Some(d) => d == today,
            Option::None => false,
        },
        _ => parsed.payload_date.len() > 0 && parsed.payload_date == today,
    }
}

pub fn is_today_valid_cache(
    parsed: &crate::model::FetchOutput,
    provider: Provider,
    antell_cached_date: Option<&String>,
    today: &str,
) -> (r: bool)
    ensures
        r == spec_today_valid_cache(
            parsed@,
            provider,
            match antell_cached_date {
                Option::Some(d) => Some(d@),
                Option::None => None,
            },
            today@,
        ),
{
    match provider {
        Provider::Antell => match antell_cached_date {
            Some(d) => crate::text::str_eq(d.as_str(), today),
            None => false,
        },
        _ => {
            if parsed.payload_date.as_str().unicode_len() > 0 {
                assert(parsed.payload_date@.len() > 0);
                crate::text::str_eq(parsed.payload_date.as_str(), today)
            } else {
                assert(parsed.payload_date@.len() == 0);
                false
            }
        },
    }
}

/// The display state a cached parse outcome would show, used to measure
/// other restaurants' menus without touching the live state.
pub fn popup_state_from_cached_result(
    settings: &crate::settings::Settings,
    restaurant: &Restaurant,
    parsed: &crate::model::FetchOutput,
    today: &str,
) -> (r: AppState)
    ensures
        r.settings@ == settings@,
        r.status == if parsed@.ok {
            FetchStatus::Okay
        } else {
            FetchStatus::Error
        },
        r.loading_started_epoch_ms == 0,
        r.error_message@ == parsed@.error_message,
        r.stale_network_error == false,
        (match r.today_menu {
            Option::Some(m) => parsed@.today_menu matches Option::Some(mv) && m@ == mv,
            Option::None => parsed@.today_menu is None,
        }),
        r.restaurant_name@ == if parsed@.restaurant_name.len() == 0 {
            restaurant@.name
        } else {
            parsed@.restaurant_name
        },
        r.restaurant_url@ == parsed@.restaurant_url,
        r.raw_payload@ == Seq::<char>::empty(),
        r.provider == restaurant@.provider,
        r.payload_date@ == parsed@.payload_date,
        r.stale_date == (parsed@.payload_date.len() > 0 && parsed@.payload_date != today@),
{
    let restaurant_name: String = if parsed.restaurant_name.as_str().unicode_len() == 0 {
        assert(parsed.restaurant_name@.len() == 0);
        String::from_str(restaurant.name)
    } else {
        assert(parsed.restaurant_name@.len() > 0);
        String::from_str(parsed.restaurant_name.as_str())
    };
    let today_menu: Option<TodayMenu> = match &parsed.today_menu {
        Some(m) => Some(crate::model::copy_today_menu(m)),
        None => None,
    };
    let stale_date: bool = if parsed.payload_date.as_str().unicode_len() > 0 {
        assert(parsed.payload_date@.len() > 0);
        !crate::text::str_eq(parsed.payload_date.as_str(), today)
    } else {
        assert(parsed.payload_date@.len() == 0);
        false
    };
    AppState {
        settings: crate::settings::copy_settings(settings),
        status: if parsed.ok {
            FetchStatus::Okay
        } else {
            FetchStatus::Error
        },
        loading_started_epoch_ms: 0,
        error_message: String::from_str(parsed.error_message.as_str()),
        stale_network_error: false,
        today_menu,
        restaurant_name,
        restaurant_url: String::from_str(parsed.restaurant_url.as_str()),
        raw_payload: String::new(),
        provider: restaurant.provider,
        payload_date: String::from_str(parsed.payload_date.as_str()),
        stale_date,
    }
}

} // verus!

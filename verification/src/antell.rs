use vstd::prelude::*;

use crate::model::{MenuGroup, MenuGroupView, TodayMenu, TodayMenuView};
use crate::rss::html_decoded;
use crate::text::{
    chars_to_string, norm_ws, normalize_chars, str_to_chars,
};

verus! {

/// The outer HTML of each node a CSS selector matches in a document, in
/// document order, as `scraper` computes it; a function of the document
/// and the selector alone.
pub uninterp spec fn selected_html_of(html: Seq<char>, selector: Seq<char>) -> Seq<Seq<char>>;

/// The space-joined text of each node a CSS selector matches in a parsed
/// fragment, in document order; a function of the fragment and the
/// selector alone.
pub uninterp spec fn selected_texts_of(fragment: Seq<char>, selector: Seq<char>) -> Seq<Seq<char>>;

/// Relies on `scraper::Html::parse_document`, `scraper::Selector::parse`
/// and `scraper::ElementRef::html`: the matched nodes' outer HTML, in
/// order; an unparseable selector selects nothing.
#[verifier::external_body]
fn select_outer_html(html: &str, selector: &str) -> (r: Vec<String>)
    ensures
        r@.map_values(|s: String| s@) == selected_html_of(html@, selector@),
{
    let document = scraper::Html::parse_document(html);
    let sel = match scraper::Selector::parse(selector) {
        Ok(s) => s,
        Err(_) => return Vec::new(),
    };
    document.select(&sel).map(|el| el.html()).collect()
}

/// Relies on `scraper::Html::parse_fragment`, `scraper::Selector::parse`
/// and `scraper::ElementRef::text`: each matched node's text parts joined
/// with single spaces, in order.
#[verifier::external_body]
fn select_inner_texts(fragment: &str, selector: &str) -> (r: Vec<String>)
    ensures
        r@.map_values(|s: String| s@) == selected_texts_of(fragment@, selector@),
{
    let document = scraper::Html::parse_fragment(fragment);
    let sel = match scraper::Selector::parse(selector) {
        Ok(s) => s,
        Err(_) => return Vec::new(),
    };
    document.select(&sel).map(|el| el.text().collect::<Vec<_>>().join(" ")).collect()
}

/// One selected node's raw text turned into display text: entities
/// decoded, white space normalized.
pub open spec fn spec_element_text(raw: Seq<char>) -> Seq<char> {
    norm_ws(html_decoded(raw))
}

fn element_text(raw: &String) -> (r: String)
    ensures
        r@ == spec_element_text(raw@),
{
    let decoded = crate::rss::decode_entities(raw.as_str());
    let dc = str_to_chars(decoded.as_str());
    let n = normalize_chars(&dc);
    chars_to_string(&n)
}

/// The non-empty decoded item texts of one section, in order.
pub open spec fn spec_section_items(texts: Seq<Seq<char>>, i: int) -> Seq<Seq<char>>
    decreases texts.len() - i,
{
    if i < 0 || i >= texts.len() {
        Seq::empty()
    } else {
        let t = spec_element_text(texts[i]);
        let rest = spec_section_items(texts, i + 1);
        if t.len() > 0 {
            seq![t] + rest
        } else {
            rest
        }
    }
}

/// One scraped section turned into a display group: its decoded item
/// texts, its heading (or "Menu" when the heading element is absent), and
/// its price text (empty when absent); a section with no non-empty item is
/// skipped.
pub open spec fn spec_section_group(section: Seq<char>) -> Option<MenuGroupView> {
    let items = spec_section_items(selected_texts_of(section, "ul.menu-list > li"@), 0);
    if items.len() == 0 {
        None
    } else {
        let titles = selected_texts_of(section, "h2.menu-title"@);
        let prices = selected_texts_of(section, "h2.menu-price"@);
        Some(
            MenuGroupView {
                name: if titles.len() > 0 {
                    spec_element_text(titles[0])
                } else {
                    "Menu"@
                },
                price: if prices.len() > 0 {
                    spec_element_text(prices[0])
                } else {
                    Seq::empty()
                },
                components: items,
            },
        )
    }
}

pub open spec fn spec_antell_groups(sections: Seq<Seq<char>>, i: int) -> Seq<MenuGroupView>
    decreases sections.len() - i,
{
    if i < 0 || i >= sections.len() {
        Seq::empty()
    } else {
        let rest = spec_antell_groups(sections, i + 1);
        match spec_section_group(sections[i]) {
            Option::Some(g) => seq![g] + rest,
            Option::None => rest,
        }
    }
}

/// The scraped menu of one page for the caller-supplied date `today_key`
/// (the page itself carries no date).
pub open spec fn spec_antell_menu(html: Seq<char>, today_key: Seq<char>) -> TodayMenuView {
    TodayMenuView {
        date_iso: today_key,
        lunch_time: Seq::empty(),
        menus: spec_antell_groups(selected_html_of(html, "section.menu-section"@), 0),
    }
}

fn section_items(texts: &Vec<String>) -> (out: Vec<String>)
    ensures
        out@.map_values(|s: String| s@) == spec_section_items(
            texts@.map_values(|s: String| s@),
            0,
        ),
{
    let ghost stexts = texts@.map_values(|s: String| s@);
    let mut out: Vec<String> = Vec::new();
    let mut i: usize = 0;
    proof {
        assert(out@.map_values(|s: String| s@) =~= Seq::<Seq<char>>::empty());
        assert(out@.map_values(|s: String| s@) + spec_section_items(stexts, 0)
            =~= spec_section_items(stexts, 0));
    }
    while i < texts.len()
        invariant
            i <= texts@.len(),
            stexts == texts@.map_values(|s: String| s@),
            spec_section_items(stexts, 0) == out@.map_values(|s: String| s@) + spec_section_items(
                stexts,
                i as int,
            ),
        decreases texts@.len() - i,
    {
        let t = element_text(&texts[i]);
        proof {
            assert(stexts[i as int] == texts@[i as int]@);
        }
        if t.as_str().unicode_len() > 0 {
            assert(t@.len() > 0);
            let ghost pre = out@;
            let ghost tv = t@;
            out.push(t);
            proof {
                let f = |s: String| s@;
                assert(out@.map_values(f) =~= pre.map_values(f).push(tv));
                assert(pre.map_values(f).push(tv) =~= pre.map_values(f) + seq![tv]);
                assert((pre.map_values(f) + seq![tv]) + spec_section_items(stexts, i + 1)
                    =~= pre.map_values(f) + (seq![tv] + spec_section_items(stexts, i + 1)));
            }
        } else {
            assert(t@.len() == 0);
        }
        i += 1;
    }
    proof {
        assert(out@.map_values(|s: String| s@) + Seq::<Seq<char>>::empty() =~= out@.map_values(
            |s: String| s@,
        ));
    }
    out
}

/// Scrape menu sections out of one HTML page; the caller supplies the
/// date the page is assumed to describe.
pub fn parse_antell_html(html: &str, today_key: &str) -> (r: TodayMenu)
    ensures
        r@ == spec_antell_menu(html@, today_key@),
{
    let sections = select_outer_html(html, "section.menu-section");
    let ghost ssections = sections@.map_values(|s: String| s@);
    let mut menus: Vec<MenuGroup> = Vec::new();
    let mut i: usize = 0;
    proof {
        assert(menus@.map_values(|m: MenuGroup| m@) =~= Seq::<MenuGroupView>::empty());
        assert(menus@.map_values(|m: MenuGroup| m@) + spec_antell_groups(ssections, 0)
            =~= spec_antell_groups(ssections, 0));
    }
    while i < sections.len()
        invariant
            i <= sections@.len(),
            ssections == sections@.map_values(|s: String| s@),
            spec_antell_groups(ssections, 0) == menus@.map_values(|m: MenuGroup| m@)
                + spec_antell_groups(ssections, i as int),
        decreases sections@.len() - i,
    {
        let section = &sections[i];
        proof {
            assert(ssections[i as int] == sections@[i as int]@);
        }
        let raw_items = select_inner_texts(section.as_str(), "ul.menu-list > li");
        let items = section_items(&raw_items);
        if items.len() == 0 {
            proof {
                assert(items@.map_values(|s: String| s@).len() == 0);
                assert(spec_section_group(ssections[i as int]) is None);
            }
        } else {
            proof {
                assert(items@.map_values(|s: String| s@).len() > 0);
            }
            let titles = select_inner_texts(section.as_str(), "h2.menu-title");
            let name: String = if titles.len() > 0 {
                proof {
                    assert(titles@.map_values(|s: String| s@).len() > 0);
                    assert(titles@[0]@ == titles@.map_values(|s: String| s@)[0]);
                }
                element_text(&titles[0])
            } else {
                proof {
                    assert(titles@.map_values(|s: String| s@).len() == 0);
                }
                String::from_str("Menu")
            };
            let prices = select_inner_texts(section.as_str(), "h2.menu-price");
            let price: String = if prices.len() > 0 {
                proof {
                    assert(prices@.map_values(|s: String| s@).len() > 0);
                    assert(prices@[0]@ == prices@.map_values(|s: String| s@)[0]);
                }
                element_text(&prices[0])
            } else {
                proof {
                    assert(prices@.map_values(|s: String| s@).len() == 0);
                }
                String::new()
            };
            let group = MenuGroup { name, price, components: items };
            let ghost gv = group@;
            let ghost pre = menus@;
            proof {
                assert(spec_section_group(ssections[i as int]) == Some(gv));
            }
            menus.push(group);
            proof {
                let f = |m: MenuGroup| m@;
                assert(menus@.map_values(f) =~= pre.map_values(f).push(gv));
                assert(pre.map_values(f).push(gv) =~= pre.map_values(f) + seq![gv]);
                assert((pre.map_values(f) + seq![gv]) + spec_antell_groups(ssections, i + 1)
                    =~= pre.map_values(f) + (seq![gv] + spec_antell_groups(ssections, i + 1)));
            }
        }
        i += 1;
    }
    proof {
        assert(menus@.map_values(|m: MenuGroup| m@) + Seq::<MenuGroupView>::empty()
            =~= menus@.map_values(|m: MenuGroup| m@));
    }
    let r = TodayMenu {
        date_iso: String::from_str(today_key),
        lunch_time: String::new(),
        menus,
    };
    r
}

} // verus!

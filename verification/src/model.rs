use vstd::prelude::*;

use crate::restaurant::Provider;

verus! {

/// One named group of dishes with its raw provider price text.
pub struct MenuGroup {
    pub name: String,
    pub price: String,
    pub components: Vec<String>,
}

/// The mathematical value of a `MenuGroup`.
pub struct MenuGroupView {
    pub name: Seq<char>,
    pub price: Seq<char>,
    pub components: Seq<Seq<char>>,
}

impl View for MenuGroup {
    type V = MenuGroupView;

    open spec fn view(&self) -> MenuGroupView {
        MenuGroupView {
            name: self.name@,
            price: self.price@,
            components: self.components@.map_values(|c: String| c@),
        }
    }
}

/// One calendar day's offering for one restaurant.
pub struct TodayMenu {
    pub date_iso: String,
    pub lunch_time: String,
    pub menus: Vec<MenuGroup>,
}

/// The mathematical value of a `TodayMenu`.
pub struct TodayMenuView {
    pub date_iso: Seq<char>,
    pub lunch_time: Seq<char>,
    pub menus: Seq<MenuGroupView>,
}

impl View for TodayMenu {
    type V = TodayMenuView;

    open spec fn view(&self) -> TodayMenuView {
        TodayMenuView {
            date_iso: self.date_iso@,
            lunch_time: self.lunch_time@,
            menus: self.menus@.map_values(|m: MenuGroup| m@),
        }
    }
}

/// The day-indexed feed structure: one named sub-menu.
pub struct ApiSetMenu {
    pub sort_order: Option<i32>,
    pub name: Option<String>,
    pub price: Option<String>,
    pub components: Option<Vec<String>>,
}

pub struct ApiSetMenuView {
    pub sort_order: Option<i32>,
    pub name: Option<Seq<char>>,
    pub price: Option<Seq<char>>,
    pub components: Option<Seq<Seq<char>>>,
}

impl View for ApiSetMenu {
    type V = ApiSetMenuView;

    open spec fn view(&self) -> ApiSetMenuView {
        ApiSetMenuView {
            sort_order: self.sort_order,
            name: match self.name {
                Option::Some(ref s) => Some(s@),
                Option::None => None,
            },
            price: match self.price {
                Option::Some(ref s) => Some(s@),
                Option::None => None,
            },
            components: match self.components {
                Option::Some(ref v) => Some(v@.map_values(|c: String| c@)),
                Option::None => None,
            },
        }
    }
}

/// The day-indexed feed structure: one day.
pub struct ApiMenuDay {
    pub date: Option<String>,
    pub lunch_time: Option<String>,
    pub set_menus: Option<Vec<ApiSetMenu>>,
}

pub struct ApiMenuDayView {
    pub date: Option<Seq<char>>,
    pub lunch_time: Option<Seq<char>>,
    pub set_menus: Option<Seq<ApiSetMenuView>>,
}

impl View for ApiMenuDay {
    type V = ApiMenuDayView;

    open spec fn view(&self) -> ApiMenuDayView {
        ApiMenuDayView {
            date: match self.date {
                Option::Some(ref s) => Some(s@),
                Option::None => None,
            },
            lunch_time: match self.lunch_time {
                Option::Some(ref s) => Some(s@),
                Option::None => None,
            },
            set_menus: match self.set_menus {
                Option::Some(ref v) => Some(v@.map_values(|m: ApiSetMenu| m@)),
                Option::None => None,
            },
        }
    }
}

/// The day-indexed feed structure: the whole payload.
pub struct ApiResponse {
    pub restaurant_name: Option<String>,
    pub restaurant_url: Option<String>,
    pub menus_for_days: Option<Vec<ApiMenuDay>>,
    pub error_text: Option<String>,
}

pub struct ApiResponseView {
    pub restaurant_name: Option<Seq<char>>,
    pub restaurant_url: Option<Seq<char>>,
    pub menus_for_days: Option<Seq<ApiMenuDayView>>,
    pub error_text: Option<Seq<char>>,
}

impl View for ApiResponse {
    type V = ApiResponseView;

    open spec fn view(&self) -> ApiResponseView {
        ApiResponseView {
            restaurant_name: match self.restaurant_name {
                Option::Some(ref s) => Some(s@),
                Option::None => None,
            },
            restaurant_url: match self.restaurant_url {
                Option::Some(ref s) => Some(s@),
                Option::None => None,
            },
            menus_for_days: match self.menus_for_days {
                Option::Some(ref v) => Some(v@.map_values(|d: ApiMenuDay| d@)),
                Option::None => None,
            },
            error_text: match self.error_text {
                Option::Some(ref s) => Some(s@),
                Option::None => None,
            },
        }
    }
}

/// The result of one fetch-and-parse attempt.
pub struct FetchOutput {
    pub ok: bool,
    pub error_message: String,
    pub today_menu: Option<TodayMenu>,
    pub restaurant_name: String,
    pub restaurant_url: String,
    pub provider: Provider,
    pub raw_json: String,
    pub payload_date: String,
}

pub struct FetchOutputView {
    pub ok: bool,
    pub error_message: Seq<char>,
    pub today_menu: Option<TodayMenuView>,
    pub restaurant_name: Seq<char>,
    pub restaurant_url: Seq<char>,
    pub provider: Provider,
    pub raw_json: Seq<char>,
    pub payload_date: Seq<char>,
}

impl View for FetchOutput {
    type V = FetchOutputView;

    open spec fn view(&self) -> FetchOutputView {
        FetchOutputView {
            ok: self.ok,
            error_message: self.error_message@,
            today_menu: match self.today_menu {
                Option::Some(ref m) => Some(m@),
                Option::None => None,
            },
            restaurant_name: self.restaurant_name@,
            restaurant_url: self.restaurant_url@,
            provider: self.provider,
            raw_json: self.raw_json@,
            payload_date: self.payload_date@,
        }
    }
}

/// A field-for-field copy of one display group.
pub fn copy_menu_group(g: &MenuGroup) -> (r: MenuGroup)
    ensures
        r@ == g@,
{
    let mut components: Vec<String> = Vec::new();
    let mut i: usize = 0;
    proof {
        assert(components@.map_values(|s: String| s@) =~= g.components@.map_values(
            |s: String| s@,
        ).take(0));
    }
    while i < g.components.len()
        invariant
            i <= g.components@.len(),
            components@.map_values(|s: String| s@) == g.components@.map_values(
                |s: String| s@,
            ).take(i as int),
        decreases g.components@.len() - i,
    {
        let c = String::from_str(g.components[i].as_str());
        proof {
            assert(c@ == g.components@.map_values(|s: String| s@)[i as int]);
        }
        let ghost pre = components@;
        components.push(c);
        proof {
            let f = |s: String| s@;
            assert(components@.map_values(f) =~= pre.map_values(f).push(
                g.components@.map_values(f)[i as int],
            ));
            assert(g.components@.map_values(f).take(i + 1) =~= g.components@.map_values(f).take(
                i as int,
            ).push(g.components@.map_values(f)[i as int]));
        }
        i += 1;
    }
    proof {
        assert(g.components@.map_values(|s: String| s@).take(g.components@.len() as int)
            =~= g.components@.map_values(|s: String| s@));
    }
    let r = MenuGroup {
        name: String::from_str(g.name.as_str()),
        price: String::from_str(g.price.as_str()),
        components,
    };
    proof {
        assert(r@ == g@);
    }
    r
}

/// A field-for-field copy of one day's menu.
pub fn copy_today_menu(m: &TodayMenu) -> (r: TodayMenu)
    ensures
        r@ == m@,
{
    let mut menus: Vec<MenuGroup> = Vec::new();
    let mut i: usize = 0;
    proof {
        assert(menus@.map_values(|g: MenuGroup| g@) =~= m.menus@.map_values(
            |g: MenuGroup| g@,
        ).take(0));
    }
    while i < m.menus.len()
        invariant
            i <= m.menus@.len(),
            menus@.map_values(|g: MenuGroup| g@) == m.menus@.map_values(|g: MenuGroup| g@).take(
                i as int,
            ),
        decreases m.menus@.len() - i,
    {
        let g = copy_menu_group(&m.menus[i]);
        proof {
            assert(g@ == m.menus@.map_values(|x: MenuGroup| x@)[i as int]);
        }
        let ghost pre = menus@;
        menus.push(g);
        proof {
            let f = |x: MenuGroup| x@;
            assert(menus@.map_values(f) =~= pre.map_values(f).push(
                m.menus@.map_values(f)[i as int],
            ));
            assert(m.menus@.map_values(f).take(i + 1) =~= m.menus@.map_values(f).take(
                i as int,
            ).push(m.menus@.map_values(f)[i as int]));
        }
        i += 1;
    }
    proof {
        assert(m.menus@.map_values(|g: MenuGroup| g@).take(m.menus@.len() as int)
            =~= m.menus@.map_values(|g: MenuGroup| g@));
    }
    let r = TodayMenu {
        date_iso: String::from_str(m.date_iso.as_str()),
        lunch_time: String::from_str(m.lunch_time.as_str()),
        menus,
    };
    proof {
        assert(r@ == m@);
    }
    r
}

} // verus!

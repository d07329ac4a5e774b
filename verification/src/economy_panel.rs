//! The panel on prices and stockpiles.

use vstd::prelude::*;
use vstd::string::*;
use crate::inspect_vehicle::Rows;
use crate::page::{line, mark, Page, Shown, Widget};
use crate::text::{digits, padded, Text};

verus! {

/// How goods are shared out.
#[derive(Clone, Copy, Debug, PartialEq, Eq, Structural)]
pub enum EconomicMode {
    Market,
    Mixed,
    Command,
}

/// A price, as it is to be read.
#[derive(Debug)]
pub struct PriceLine {
    pub name: String,
    pub price: String,
}

/// Something for sale.
#[derive(Debug)]
pub struct Listing {
    pub name: String,
    pub stock: u32,
    pub price: String,
}

/// A market.
#[derive(Debug)]
pub struct MarketView {
    pub prices: Vec<PriceLine>,
    pub listings: Vec<Listing>,
}

/// A good and its place in the stockpiles.
#[derive(Debug)]
pub struct CatalogLine {
    pub id: u16,
    pub name: String,
}

/// What the panel is made from.
#[derive(Debug)]
pub struct EconomySheet {
    pub mode: EconomicMode,
    pub mode_name: String,
    /// The market of the player's settlement or camp, where there is one.
    pub local: Option<MarketView>,
    pub global: MarketView,
    pub catalog: Vec<CatalogLine>,
    /// The stock of each good, as it is to be read.
    pub stockpile: Vec<String>,
    /// The workers assigned to each good.
    pub quotas: Vec<u32>,
}

/// The market whose prices are shown: the player's own, else the world's.
pub open spec fn market_of(s: EconomySheet) -> MarketView {
    match s.local {
        Some(m) => m,
        None => s.global,
    }
}

/// The rows on the first `n` prices.
pub open spec fn price_rows(p: Rows, list: Seq<PriceLine>, n: int) -> Rows
    decreases n,
{
    if n <= 0 {
        p
    } else {
        let l = list[n - 1];
        price_rows(p, list, n - 1).push(line("  "@ + padded(l.name@, 6) + ": $"@ + l.price@))
    }
}

/// The rows on the first `n` things for sale; what is sold out is left out.
pub open spec fn listing_rows(p: Rows, list: Seq<Listing>, n: int) -> Rows
    decreases n,
{
    if n <= 0 {
        p
    } else {
        let q = listing_rows(p, list, n - 1);
        let l = list[n - 1];
        if l.stock > 0 {
            q.push(line("  "@ + l.name@ + " x"@ + digits(l.stock as nat) + ": $"@ + l.price@))
        } else {
            q
        }
    }
}

/// The rows on the stock of the first `n` goods; goods without a stockpile are left out.
pub open spec fn stock_rows(p: Rows, s: EconomySheet, n: int) -> Rows
    decreases n,
{
    if n <= 0 {
        p
    } else {
        let q = stock_rows(p, s, n - 1);
        let c = s.catalog@[n - 1];
        if c.id < s.stockpile@.len() {
            q.push(
                line(
                    "  "@ + padded(c.name@, 6) + ": "@ + s.stockpile@[c.id as int]@ + " units  ("@
                        + digits(s.quotas@[c.id as int] as nat) + " workers)"@,
                ),
            )
        } else {
            q
        }
    }
}

/// The panel.
pub open spec fn economy_rows(s: EconomySheet) -> Rows {
    let p = Seq::<Shown<()>>::empty().push(line("Mode: "@ + s.mode_name@)).push(
        mark(Widget::Rule),
    );
    match s.mode {
        EconomicMode::Command => stock_rows(
            p.push(line("Command Stockpiles:"@)),
            s,
            s.catalog@.len() as int,
        ),
        _ => {
            let m = market_of(s);
            let p = price_rows(
                p.push(line("Market Prices (Commodities):"@)),
                m.prices@,
                m.prices@.len() as int,
            );
            if m.listings@.len() > 0 {
                listing_rows(
                    p.push(mark(Widget::Rule)).push(line("Item Listings:"@)),
                    m.listings@,
                    m.listings@.len() as int,
                )
            } else {
                p
            }
        },
    }
}

fn show_prices(page: &mut Page<()>, list: &Vec<PriceLine>)
    ensures
        final(page).shown() == price_rows(old(page).shown(), list@, list@.len() as int),
{
    let ghost start = page.shown();
    let mut i: usize = 0;
    while i < list.len()
        invariant
            i <= list.len(),
            page.shown() == price_rows(start, list@, i as int),
        decreases list.len() - i,
    {
        let l = &list[i];
        page.say(
            Text::of("  ").pad(l.name.as_str(), 6).with(": $").with(l.price.as_str()).done(),
        );
        i += 1;
    }
}

fn show_listings(page: &mut Page<()>, list: &Vec<Listing>)
    ensures
        final(page).shown() == listing_rows(old(page).shown(), list@, list@.len() as int),
{
    let ghost start = page.shown();
    let mut i: usize = 0;
    while i < list.len()
        invariant
            i <= list.len(),
            page.shown() == listing_rows(start, list@, i as int),
        decreases list.len() - i,
    {
        let l = &list[i];
        if l.stock > 0 {
            page.say(
                Text::of("  ").with(l.name.as_str()).with(" x").number(l.stock as u64).with(
                    ": $",
                ).with(l.price.as_str()).done(),
            );
        }
        i += 1;
    }
}

fn show_stock(page: &mut Page<()>, s: &EconomySheet)
    requires
        s.quotas@.len() >= s.stockpile@.len(),
    ensures
        final(page).shown() == stock_rows(old(page).shown(), *s, s.catalog@.len() as int),
{
    let ghost start = page.shown();
    let mut i: usize = 0;
    while i < s.catalog.len()
        invariant
            i <= s.catalog.len(),
            s.quotas@.len() >= s.stockpile@.len(),
            page.shown() == stock_rows(start, *s, i as int),
        decreases s.catalog.len() - i,
    {
        let c = &s.catalog[i];
        let k: usize = c.id as usize;
        if k < s.stockpile.len() {
            page.say(
                Text::of("  ").pad(c.name.as_str(), 6).with(": ").with(
                    s.stockpile[k].as_str(),
                ).with(" units  (").number(s.quotas[k] as u64).with(" workers)").done(),
            );
        }
        i += 1;
    }
}

/// The title of the panel, and the panel.
pub fn economy_panel_system(s: &EconomySheet) -> (r: (&'static str, Page<()>))
    requires
        s.quotas@.len() >= s.stockpile@.len(),
    ensures
        r.0@ == (if s.local is Some {
            "Economy (Local Market)"@
        } else {
            "Economy"@
        }),
        r.1.shown() == economy_rows(*s),
{
    let title = if s.local.is_some() {
        "Economy (Local Market)"
    } else {
        "Economy"
    };
    let mut page: Page<()> = Page::new();
    page.say(Text::of("Mode: ").with(s.mode_name.as_str()).done());
    page.place(Widget::Rule);
    match s.mode {
        EconomicMode::Command => {
            page.note("Command Stockpiles:");
            show_stock(&mut page, s);
        },
        _ => {
            let m = match &s.local {
                Some(m) => m,
                None => &s.global,
            };
            page.note("Market Prices (Commodities):");
            show_prices(&mut page, &m.prices);
            if m.listings.len() > 0 {
                page.place(Widget::Rule);
                page.note("Item Listings:");
                show_listings(&mut page, &m.listings);
            }
        },
    }
    (title, page)
}

/// A listing with stock is shown with its name, stock and price, one without is not; what was shown
/// before stays, and nothing else is added.
pub proof fn listings_in_stock_are_shown(p: Rows, list: Seq<Listing>, n: int, l: Listing)
    ensures
        listing_rows(p, list, 0) == p,
        0 < n && list[n - 1].stock == 0 ==> listing_rows(p, list, n) == listing_rows(p, list, n - 1),
        0 < n && list[n - 1].stock > 0 ==> {
            let q = listing_rows(p, list, n);
            &&& q.len() == listing_rows(p, list, n - 1).len() + 1
            &&& q.drop_last() == listing_rows(p, list, n - 1)
            &&& q.last().1 == "  "@ + list[n - 1].name@ + " x"@ + digits(
                list[n - 1].stock as nat,
            ) + ": $"@ + list[n - 1].price@
        },
{
    if 0 < n && list[n - 1].stock > 0 {
        assert(listing_rows(p, list, n).drop_last() =~= listing_rows(p, list, n - 1));
    }
}

/// The market nearest to the player is shown where there is one, else that of the whole world; a
/// command economy shows its stockpiles in its place.
pub proof fn the_local_market_comes_first(s: EconomySheet)
    ensures
        s.local matches Some(m) ==> market_of(s) == m,
        s.local is None ==> market_of(s) == s.global,
        s.mode == EconomicMode::Command && s.catalog@.len() == 0 ==> economy_rows(s)[2].1
            == "Command Stockpiles:"@,
        s.mode != EconomicMode::Command && market_of(s).prices@.len() == 0 && market_of(
            s,
        ).listings@.len() == 0 ==> economy_rows(s)[2].1 == "Market Prices (Commodities):"@
            && economy_rows(s).len() == 3,
{
}

} // verus!

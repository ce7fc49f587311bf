//! Filling the user-interface state from a built catalog: the country
//! filter's items, the sidebar's category rows and the overview's product
//! groups.

use vstd::prelude::*;
use crate::catalog::lookup;
use crate::country::Country;
use crate::model::Category;
use crate::repository::Repository;
use crate::text;
use crate::ui::{OverviewGroup, Ui};

verus! {

/// Fills the user-interface state from the catalog.
pub struct Populator {}

impl Populator {
    /// Offers exactly the countries that have products in the country
    /// filter row, each once, in slug order, after whatever was offered
    /// before.
    pub fn populate_sidebar_country_row(ui: &mut Ui, repo: &Repository)
        requires
            repo.catalog.wf(),
        ensures
            final(ui).window.navigation.main_page.sidebar.country_row.items@.len() >= old(ui).window.navigation.main_page.sidebar.country_row.items@.len(),
            forall|t: int|
                0 <= t < old(ui).window.navigation.main_page.sidebar.country_row.items@.len()
                    ==> (#[trigger] final(ui).window.navigation.main_page.sidebar.country_row.items@[t]) == old(ui).window.navigation.main_page.sidebar.country_row.items@[t],
            forall|t: int|
                old(ui).window.navigation.main_page.sidebar.country_row.items@.len() <= t < final(ui).window.navigation.main_page.sidebar.country_row.items@.len()
                    ==> repo.catalog.country_to_products@[(#[trigger] final(ui).window.navigation.main_page.sidebar.country_row.items@[t]).ordinal_spec()]@.len()
                    > 0,
            forall|a: int, b: int|
                old(ui).window.navigation.main_page.sidebar.country_row.items@.len() <= a < b
                    < final(ui).window.navigation.main_page.sidebar.country_row.items@.len() ==> (
                #[trigger] final(ui).window.navigation.main_page.sidebar.country_row.items@[a]) != (
                #[trigger] final(ui).window.navigation.main_page.sidebar.country_row.items@[b])
                    && text::lex_le(
                    final(ui).window.navigation.main_page.sidebar.country_row.items@[
                        a
                    ].slug_spec(),
                    final(ui).window.navigation.main_page.sidebar.country_row.items@[
                        b
                    ].slug_spec(),
                ),
            forall|c: Country|
                repo.catalog.country_to_products@[(#[trigger] c.ordinal_spec())]@.len() > 0
                    ==> exists|t: int|
                    old(ui).window.navigation.main_page.sidebar.country_row.items@.len() <= t
                        < final(ui).window.navigation.main_page.sidebar.country_row.items@.len()
                        && (#[trigger] final(ui).window.navigation.main_page.sidebar.country_row.items@[t]) == c,
            final(ui).window.navigation.main_page.sidebar.country_row.state == old(ui).window.navigation.main_page.sidebar.country_row.state,
            final(ui).window.navigation.main_page.sidebar.country_row.selected == old(ui).window.navigation.main_page.sidebar.country_row.selected,
            final(ui).window.navigation.main_page.sidebar.search_row == old(ui).window.navigation.main_page.sidebar.search_row,
            final(ui).window.navigation.main_page.sidebar.category_list == old(ui).window.navigation.main_page.sidebar.category_list,
            final(ui).window.navigation.main_page.overview == old(ui).window.navigation.main_page.overview,
            final(ui).window.navigation.stack == old(ui).window.navigation.stack,
            final(ui).window.navigation.product_page == old(ui).window.navigation.product_page,
    {
        let countries = Repository::countries_sorted();
        let mut i: usize = 0;
        let ghost base = ui.window.navigation.main_page.sidebar.country_row.items@.len();
        let ghost mut picked: Seq<int> = Seq::empty();
        while i < countries.len()
            invariant
                repo.catalog.wf(),
                i <= countries@.len(),
                countries@.len() == crate::country::COUNTRY_COUNT,
                forall|a: int, b: int|
                    0 <= a < b < countries@.len() ==> text::lex_le(
                        (#[trigger] countries@[a]).slug_spec(),
                        (#[trigger] countries@[b]).slug_spec(),
                    ),
                forall|a: int, b: int|
                    0 <= a < b < countries@.len() ==> countries@[a] != countries@[b],
                forall|c: Country| Country::all_spec().contains(c) ==> countries@.contains(c),
                base == old(ui).window.navigation.main_page.sidebar.country_row.items@.len(),
                ui.window.navigation.main_page.sidebar.country_row.items@.len() == base
                    + picked.len(),
                forall|t: int|
                    0 <= t < base ==> (#[trigger] ui
                        .window
                        .navigation
                        .main_page
                        .sidebar
                        .country_row
                        .items@[t]) == old(ui).window.navigation.main_page.sidebar.country_row.items@[t],
                forall|k: int| 0 <= k < picked.len() ==> 0 <= #[trigger] picked[k] < i,
                forall|a: int, b: int| 0 <= a < b < picked.len() ==> picked[a] < picked[b],
                forall|k: int|
                    0 <= k < picked.len()
                        ==> ui.window.navigation.main_page.sidebar.country_row.items@[base + k]
                        == countries@[#[trigger] picked[k]],
                forall|t: int|
                    0 <= t < i ==> ((repo.catalog.country_to_products@[(#[trigger] countries@[
                        t
                    ]).ordinal_spec()]@.len() > 0) <==> picked.contains(t)),
                ui.window.navigation.main_page.sidebar.country_row.state == old(ui).window.navigation.main_page.sidebar.country_row.state,
                ui.window.navigation.main_page.sidebar.country_row.selected == old(ui).window.navigation.main_page.sidebar.country_row.selected,
                ui.window.navigation.main_page.sidebar.search_row == old(ui).window.navigation.main_page.sidebar.search_row,
                ui.window.navigation.main_page.sidebar.category_list == old(ui).window.navigation.main_page.sidebar.category_list,
                ui.window.navigation.main_page.overview == old(ui).window.navigation.main_page.overview,
                ui.window.navigation.stack == old(ui).window.navigation.stack,
                ui.window.navigation.product_page == old(ui).window.navigation.product_page,
            decreases countries@.len() - i,
        {
            let c = countries[i];
            let has_products = match repo.product_indices_by_country(c) {
                Some(bucket) => bucket.len() > 0,
                None => false,
            };
            if has_products {
                ui.window.navigation.main_page.sidebar.country_row.add_item(c);
                proof {
                    let ghost pre = picked;
                    picked = picked.push(i as int);
                    assert(picked[picked.len() - 1] == i as int);
                    assert forall|t: int| 0 <= t < i + 1 implies ((
                    repo.catalog.country_to_products@[(#[trigger] countries@[
                        t
                    ]).ordinal_spec()]@.len() > 0) <==> picked.contains(t)) by {
                        if t < i {
                            if pre.contains(t) {
                                let k = choose|k: int| 0 <= k < pre.len() && pre[k] == t;
                                assert(picked[k] == t);
                            } else {
                                if picked.contains(t) {
                                    let k = choose|k: int|
                                        0 <= k < picked.len() && picked[k] == t;
                                    assert(k < pre.len() ==> pre[k] == t);
                                }
                            }
                        } else {
                            assert(picked.contains(i as int));
                        }
                    }
                }
            } else {
                proof {
                    assert forall|t: int| 0 <= t < i + 1 implies ((
                    repo.catalog.country_to_products@[(#[trigger] countries@[
                        t
                    ]).ordinal_spec()]@.len() > 0) <==> picked.contains(t)) by {
                        if t == i {
                            if picked.contains(t) {
                                let k = choose|k: int| 0 <= k < picked.len() && picked[k] == t;
                                assert(picked[k] < i);
                            }
                        }
                    }
                }
            }
            i += 1;
        }
        proof {
            let items = ui.window.navigation.main_page.sidebar.country_row.items@;
            assert forall|t: int| base <= t < items.len() implies repo.catalog.country_to_products@[
                (#[trigger] items[t]).ordinal_spec()
            ]@.len() > 0 by {
                let k = t - base;
                assert(items[base + k] == countries@[picked[k]]);
                assert(picked.contains(picked[k]));
            }
            assert forall|a: int, b: int| base <= a < b < items.len() implies (
            #[trigger] items[a]) != (#[trigger] items[b]) && text::lex_le(
                items[a].slug_spec(),
                items[b].slug_spec(),
            ) by {
                let ka = a - base;
                let kb = b - base;
                assert(items[base + ka] == countries@[picked[ka]]);
                assert(items[base + kb] == countries@[picked[kb]]);
                assert(picked[ka] < picked[kb]);
            }
            assert forall|c: Country|
                repo.catalog.country_to_products@[(#[trigger] c.ordinal_spec())]@.len() > 0 implies
                exists|t: int|
                    base <= t < items.len() && (#[trigger] items[t]) == c by {
                crate::country::lemma_all_spec_contains(c);
                assert(countries@.contains(c));
                let u = choose|u: int| 0 <= u < countries@.len() && countries@[u] == c;
                assert(repo.catalog.country_to_products@[(countries@[u]).ordinal_spec()]@.len()
                    > 0);
                assert(picked.contains(u));
                let k = choose|k: int| 0 <= k < picked.len() && picked[k] == u;
                assert(items[base + k] == c);
            }
        }
    }

    /// Appends one sidebar row per category, in the order given.
    pub fn populate_sidebar_category_list(ui: &mut Ui, categories: &Vec<(usize, &Category)>)
        ensures
            final(ui).window.navigation.main_page.sidebar.category_list.rows@.len() == old(ui).window.navigation.main_page.sidebar.category_list.rows@.len() + categories@.len(),
            forall|t: int|
                0 <= t < old(ui).window.navigation.main_page.sidebar.category_list.rows@.len()
                    ==> (#[trigger] final(ui).window.navigation.main_page.sidebar.category_list.rows@[t]) == old(ui).window.navigation.main_page.sidebar.category_list.rows@[t],
            forall|t: int|
                0 <= t < categories@.len() ==> {
                    let row = #[trigger] final(ui).window.navigation.main_page.sidebar.category_list.rows@[old(ui).window.navigation.main_page.sidebar.category_list.rows@.len() + t];
                    row.index == categories@[t].0 && row.visible
                },
            final(ui).window.navigation.main_page.sidebar.category_list.selected == old(ui).window.navigation.main_page.sidebar.category_list.selected,
            final(ui).window.navigation.main_page.sidebar.search_row == old(ui).window.navigation.main_page.sidebar.search_row,
            final(ui).window.navigation.main_page.sidebar.country_row == old(ui).window.navigation.main_page.sidebar.country_row,
            final(ui).window.navigation.main_page.overview == old(ui).window.navigation.main_page.overview,
            final(ui).window.navigation.stack == old(ui).window.navigation.stack,
            final(ui).window.navigation.product_page == old(ui).window.navigation.product_page,
    {
        let ghost base = ui.window.navigation.main_page.sidebar.category_list.rows@.len();
        let mut i: usize = 0;
        while i < categories.len()
            invariant
                i <= categories@.len(),
                ui.window.navigation.main_page.sidebar.category_list.rows@.len() == base + i,
                forall|t: int|
                    0 <= t < i ==> {
                        let row = #[trigger] ui
                            .window
                            .navigation
                            .main_page
                            .sidebar
                            .category_list
                            .rows@[base + t];
                        row.index == categories@[t].0 && row.visible
                    },
                forall|t: int|
                    0 <= t < base ==> (#[trigger] ui
                        .window
                        .navigation
                        .main_page
                        .sidebar
                        .category_list
                        .rows@[t]) == old(ui).window.navigation.main_page.sidebar.category_list.rows@[t],
                ui.window.navigation.main_page.sidebar.category_list.selected == old(ui).window.navigation.main_page.sidebar.category_list.selected,
                ui.window.navigation.main_page.sidebar.search_row == old(ui).window.navigation.main_page.sidebar.search_row,
                ui.window.navigation.main_page.sidebar.country_row == old(ui).window.navigation.main_page.sidebar.country_row,
                ui.window.navigation.main_page.overview == old(ui).window.navigation.main_page.overview,
                ui.window.navigation.stack == old(ui).window.navigation.stack,
                ui.window.navigation.product_page == old(ui).window.navigation.product_page,
                base == old(ui).window.navigation.main_page.sidebar.category_list.rows@.len(),
            decreases categories@.len() - i,
        {
            ui.window.navigation.main_page.sidebar.category_list.append_row(categories[i].0);
            i += 1;
        }
    }

    /// Adds one overview group per category, in the order given, each
    /// holding exactly that category's listed products, sorted by name, all
    /// rows shown. The first group added to an empty overview becomes the
    /// active one.
    pub fn populate_overview(ui: &mut Ui, repo: &Repository, categories: &Vec<(usize, &Category)>)
        requires
            repo.catalog.wf(),
            forall|t: int|
                0 <= t < categories@.len() ==> (#[trigger] categories@[t]).0
                    < repo.catalog.categories@.len() && *categories@[t].1
                    == repo.catalog.categories@[categories@[t].0 as int],
        ensures
            final(ui).window.navigation.main_page.overview.groups@.len() == old(ui).window.navigation.main_page.overview.groups@.len() + categories@.len(),
            forall|k: int|
                0 <= k < old(ui).window.navigation.main_page.overview.groups@.len() ==> (
                #[trigger] final(ui).window.navigation.main_page.overview.groups@[k]) == old(ui).window.navigation.main_page.overview.groups@[k],
            forall|k: int|
                0 <= k < categories@.len() ==> {
                    let g = #[trigger] final(ui).window.navigation.main_page.overview.groups@[old(ui).window.navigation.main_page.overview.groups@.len() + k];
                    &&& g.index == categories@[k].0
                    &&& g.rows@.len() == repo.catalog.category_to_products@[
                        categories@[k].0 as int
                    ]@.len()
                    &&& forall|u: int|
                        0 <= u < g.rows@.len() ==> (#[trigger] g.rows@[u]).visible && g.rows@[
                            u
                        ].index < repo.catalog.products@.len()
                            && repo.catalog.category_to_products@[
                            categories@[k].0 as int
                        ]@.contains(g.rows@[u].index)
                    &&& forall|a: int, b: int|
                        0 <= a < b < g.rows@.len() ==> (#[trigger] g.rows@[a]).index != (
                        #[trigger] g.rows@[b]).index && text::lex_le(
                            repo.catalog.products@[g.rows@[a].index as int].name@,
                            repo.catalog.products@[g.rows@[b].index as int].name@,
                        )
                },
            old(ui).window.navigation.main_page.overview.groups@.len() > 0 ==> final(ui).window.navigation.main_page.overview.active_group == old(ui).window.navigation.main_page.overview.active_group,
            old(ui).window.navigation.main_page.overview.groups@.len() == 0 && categories@.len()
                > 0 ==> final(ui).window.navigation.main_page.overview.active_group
                == categories@[0].0,
            old(ui).window.navigation.main_page.overview.groups@.len() == 0 && categories@.len()
                == 0 ==> final(ui).window.navigation.main_page.overview.active_group == old(ui).window.navigation.main_page.overview.active_group,
            final(ui).window.navigation.main_page.sidebar == old(ui).window.navigation.main_page.sidebar,
            final(ui).window.navigation.stack == old(ui).window.navigation.stack,
            final(ui).window.navigation.product_page == old(ui).window.navigation.product_page,
    {
        let ghost base = ui.window.navigation.main_page.overview.groups@.len();
        let mut i: usize = 0;
        while i < categories.len()
            invariant
                repo.catalog.wf(),
                forall|t: int|
                    0 <= t < categories@.len() ==> (#[trigger] categories@[t]).0
                        < repo.catalog.categories@.len() && *categories@[t].1
                        == repo.catalog.categories@[categories@[t].0 as int],
                i <= categories@.len(),
                base == old(ui).window.navigation.main_page.overview.groups@.len(),
                ui.window.navigation.main_page.overview.groups@.len() == base + i,
                forall|k: int|
                    0 <= k < base ==> (#[trigger] ui
                        .window
                        .navigation
                        .main_page
                        .overview
                        .groups@[k]) == old(ui).window.navigation.main_page.overview.groups@[k],
                forall|k: int|
                    0 <= k < i ==> {
                        let g = #[trigger] ui.window.navigation.main_page.overview.groups@[base
                            + k];
                        &&& g.index == categories@[k].0
                        &&& g.rows@.len() == repo.catalog.category_to_products@[
                            categories@[k].0 as int
                        ]@.len()
                        &&& forall|u: int|
                            0 <= u < g.rows@.len() ==> (#[trigger] g.rows@[u]).visible
                                && g.rows@[u].index < repo.catalog.products@.len()
                                && repo.catalog.category_to_products@[
                                categories@[k].0 as int
                            ]@.contains(g.rows@[u].index)
                        &&& forall|a: int, b: int|
                            0 <= a < b < g.rows@.len() ==> (#[trigger] g.rows@[a]).index != (
                            #[trigger] g.rows@[b]).index && text::lex_le(
                                repo.catalog.products@[g.rows@[a].index as int].name@,
                                repo.catalog.products@[g.rows@[b].index as int].name@,
                            )
                    },
                base > 0 ==> ui.window.navigation.main_page.overview.active_group == old(ui).window.navigation.main_page.overview.active_group,
                base == 0 && i > 0 ==> ui.window.navigation.main_page.overview.active_group
                    == categories@[0].0,
                base == 0 && i == 0 ==> ui.window.navigation.main_page.overview.active_group
                    == old(ui).window.navigation.main_page.overview.active_group,
                ui.window.navigation.main_page.sidebar == old(ui).window.navigation.main_page.sidebar,
                ui.window.navigation.stack == old(ui).window.navigation.stack,
                ui.window.navigation.product_page == old(ui).window.navigation.product_page,
            decreases categories@.len() - i,
        {
            let pair_index = categories[i].0;
            let sorted = match repo.category_products_sorted(categories[i].1) {
                Some(v) => v,
                None => {
                    proof {
                        let ci = categories@[i as int].0 as int;
                        crate::catalog::lemma_exact_index_lookup(
                            repo.catalog.slug_index@,
                            repo.catalog.slug_seq(),
                            ci,
                        );
                        assert(repo.catalog.slug_seq()[ci]
                            == repo.catalog.categories@[ci].slug@);
                        assert(false);
                    }
                    Vec::new()
                },
            };
            proof {
                let ci = categories@[i as int].0 as int;
                crate::catalog::lemma_exact_index_lookup(
                    repo.catalog.slug_index@,
                    repo.catalog.slug_seq(),
                    ci,
                );
                assert(repo.catalog.slug_seq()[ci] == repo.catalog.categories@[ci].slug@);
                assert(lookup(repo.catalog.slug_index@, categories@[i as int].1.slug@) == Some(
                    ci,
                ));
            }
            let mut group = OverviewGroup { index: pair_index, rows: Vec::new() };
            let mut t: usize = 0;
            while t < sorted.len()
                invariant
                    repo.catalog.wf(),
                    t <= sorted@.len(),
                    group.rows@.len() == t,
                    group.index == pair_index,
                    forall|u: int|
                        0 <= u < sorted@.len() ==> (#[trigger] sorted@[u]).0
                            < repo.catalog.products@.len() && *sorted@[u].1
                            == repo.catalog.products@[sorted@[u].0 as int],
                    forall|u: int|
                        0 <= u < t ==> (#[trigger] group.rows@[u]).index == sorted@[u].0
                            && group.rows@[u].visible,
                decreases sorted@.len() - t,
            {
                group.append_row(sorted[t].0);
                t += 1;
            }
            proof {
                assert(group.rows@.len() == sorted@.len());
            }
            let ghost sorted_view = sorted@;
            let ghost group_view = group;
            ui.window.navigation.main_page.overview.add_group(group);
            proof {
                let ci = categories@[i as int].0 as int;
                let g = ui.window.navigation.main_page.overview.groups@[base + i];
                assert(g == group_view);
                assert forall|u: int| 0 <= u < g.rows@.len() implies (
                #[trigger] g.rows@[u]).visible && g.rows@[u].index
                    < repo.catalog.products@.len() && repo.catalog.category_to_products@[
                    ci
                ]@.contains(g.rows@[u].index) by {
                    assert(g.rows@[u].index == sorted_view[u].0);
                }
                assert forall|a: int, b: int| 0 <= a < b < g.rows@.len() implies (
                #[trigger] g.rows@[a]).index != (#[trigger] g.rows@[b]).index && text::lex_le(
                    repo.catalog.products@[g.rows@[a].index as int].name@,
                    repo.catalog.products@[g.rows@[b].index as int].name@,
                ) by {
                    assert(g.rows@[a].index == sorted_view[a].0);
                    assert(g.rows@[b].index == sorted_view[b].0);
                    assert(*sorted_view[a].1 == repo.catalog.products@[sorted_view[a].0 as int]);
                    assert(*sorted_view[b].1 == repo.catalog.products@[sorted_view[b].0 as int]);
                    assert(text::lex_le(sorted_view[a].1.name@, sorted_view[b].1.name@));
                }
            }
            i += 1;
        }
    }

    /// Populates the whole user interface: the country filter holds exactly
    /// the countries with products, the sidebar lists every category sorted
    /// by slug, and one overview group per sidebar row holds that category's
    /// products sorted by name.
    pub fn populate(ui: &mut Ui, repo: &Repository)
        requires
            repo.catalog.wf(),
        ensures
            final(ui).window.navigation.main_page.sidebar.category_list.rows@.len() == old(ui).window.navigation.main_page.sidebar.category_list.rows@.len()
                + repo.catalog.categories@.len(),
            final(ui).window.navigation.main_page.overview.groups@.len() == old(ui).window.navigation.main_page.overview.groups@.len()
                + repo.catalog.categories@.len(),
            forall|k: int|
                0 <= k < repo.catalog.categories@.len() ==> {
                    let row = #[trigger] final(ui).window.navigation.main_page.sidebar.category_list.rows@[old(ui).window.navigation.main_page.sidebar.category_list.rows@.len() + k];
                    let g = final(ui).window.navigation.main_page.overview.groups@[old(ui).window.navigation.main_page.overview.groups@.len() + k];
                    &&& row.visible
                    &&& row.index < repo.catalog.categories@.len()
                    &&& g.index == row.index
                    &&& g.rows@.len() == repo.catalog.category_to_products@[
                        row.index as int
                    ]@.len()
                },
            forall|a: int, b: int|
                old(ui).window.navigation.main_page.sidebar.category_list.rows@.len() <= a < b
                    < final(ui).window.navigation.main_page.sidebar.category_list.rows@.len()
                    ==> (#[trigger] final(ui).window.navigation.main_page.sidebar.category_list.rows@[a]).index != (
                #[trigger] final(ui).window.navigation.main_page.sidebar.category_list.rows@[
                    b
                ]).index && text::lex_le(
                    repo.catalog.categories@[final(ui).window.navigation.main_page.sidebar.category_list.rows@[a].index as int].slug@,
                    repo.catalog.categories@[final(ui).window.navigation.main_page.sidebar.category_list.rows@[b].index as int].slug@,
                ),
            forall|c: Country|
                repo.catalog.country_to_products@[(#[trigger] c.ordinal_spec())]@.len() > 0
                    ==> exists|t: int|
                    old(ui).window.navigation.main_page.sidebar.country_row.items@.len() <= t
                        < final(ui).window.navigation.main_page.sidebar.country_row.items@.len()
                        && (#[trigger] final(ui).window.navigation.main_page.sidebar.country_row.items@[t]) == c,
            final(ui).window.navigation.stack == old(ui).window.navigation.stack,
            final(ui).window.navigation.product_page == old(ui).window.navigation.product_page,
    {
        let categories = repo.categories_sorted();
        Self::populate_sidebar_country_row(ui, repo);
        Self::populate_sidebar_category_list(ui, &categories);
        Self::populate_overview(ui, repo, &categories);
        proof {
            let rows = ui.window.navigation.main_page.sidebar.category_list.rows@;
            let base_r = old(ui).window.navigation.main_page.sidebar.category_list.rows@.len();
            assert forall|a: int, b: int| base_r <= a < b < rows.len() implies (
            #[trigger] rows[a]).index != (#[trigger] rows[b]).index && text::lex_le(
                repo.catalog.categories@[rows[a].index as int].slug@,
                repo.catalog.categories@[rows[b].index as int].slug@,
            ) by {
                let ka = a - base_r;
                let kb = b - base_r;
                assert(rows[base_r + ka].index == categories@[ka].0);
                assert(rows[base_r + kb].index == categories@[kb].0);
                assert(categories@[ka].0 != categories@[kb].0);
                assert(text::lex_le(categories@[ka].1.slug@, categories@[kb].1.slug@));
                assert(*categories@[ka].1 == repo.catalog.categories@[categories@[ka].0 as int]);
                assert(*categories@[kb].1 == repo.catalog.categories@[categories@[kb].0 as int]);
            }
        }
    }
}

} // verus!

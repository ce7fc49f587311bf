//! A model of the client user interface's state: the navigation stack and
//! the widget contents the runtime fills from the catalog. The toolkit
//! renders this state; every state change is decided and verified here.

use vstd::prelude::*;
use crate::country::Country;

verus! {

/// The pages the navigation stack can show.
#[derive(Debug, Clone, Copy, PartialEq, Eq, Structural)]
pub enum NavigationPage {
    /// The startup page.
    Loading,
    /// The main page with sidebar and overview.
    Main,
    /// A product's detail page.
    Product,
}

/// The kinds of rows a product page lists.
#[derive(Debug, Clone, Copy, PartialEq, Eq, Structural)]
pub enum ProductRowType {
    /// The product's country row.
    Country,
    /// One website link row.
    Website,
    /// One owning-category row.
    Category,
}

/// Whether the country filter row is engaged.
#[derive(Debug, Clone, Copy, PartialEq, Eq, Structural)]
pub enum SidebarCountryRowState {
    /// A country is selected.
    Active,
    /// The default entry is selected.
    Inactive,
}

/// Whether the search row is engaged.
#[derive(Debug, Clone, Copy, PartialEq, Eq, Structural)]
pub enum SidebarSearchRowState {
    /// The search entry has focus or content.
    Active,
    /// The search entry was left with content cleared.
    Inactive,
    /// The search entry was never engaged.
    Idle,
}

/// The search row: its engagement state and the query text.
pub struct SidebarSearchRow {
    /// The engagement state.
    pub state: SidebarSearchRowState,
    /// The current query text.
    pub text: String,
}

impl SidebarSearchRow {
    /// Changes the engagement state, reporting whether it changed.
    pub fn set_state(&mut self, state: SidebarSearchRowState) -> (changed: bool)
        ensures
            final(self).state == state,
            final(self).text == old(self).text,
            changed == (old(self).state != state),
    {
        let previous = self.state;
        self.state = state;
        previous != state
    }

    /// Empties the query text.
    pub fn clear_search(&mut self)
        ensures
            final(self).text@ == Seq::<char>::empty(),
            final(self).state == old(self).state,
    {
        self.text = String::new();
    }

    /// The current query text.
    pub fn search_text(&self) -> (r: &str)
        ensures
            r@ == self.text@,
    {
        self.text.as_str()
    }

    /// Whether the query text is empty.
    pub fn is_empty(&self) -> (r: bool)
        ensures
            r == (self.text@.len() == 0),
    {
        self.text.as_str().is_empty()
    }
}

/// The country filter row: the selectable countries and the selection.
pub struct SidebarCountryRow {
    /// The engagement state.
    pub state: SidebarCountryRowState,
    /// The countries offered, in the order they were added.
    pub items: Vec<Country>,
    /// The selected position in `items`, or nothing for the default entry.
    pub selected: Option<usize>,
}

impl SidebarCountryRow {
    /// The structural invariant: a selection always points into the items.
    pub open spec fn wf(&self) -> bool {
        self.selected is Some ==> (self.selected->0 as int) < self.items@.len()
    }

    /// Whether the default entry is selected.
    pub fn is_selected_default(&self) -> (r: bool)
        ensures
            r == (self.selected is None),
    {
        self.selected.is_none()
    }

    /// Changes the engagement state, reporting whether it changed.
    pub fn set_state(&mut self, state: SidebarCountryRowState) -> (changed: bool)
        ensures
            final(self).state == state,
            final(self).items == old(self).items,
            final(self).selected == old(self).selected,
            changed == (old(self).state != state),
            old(self).wf() ==> final(self).wf(),
    {
        let previous = self.state;
        self.state = state;
        previous != state
    }

    /// Offers one more country.
    pub fn add_item(&mut self, country: Country)
        ensures
            final(self).items@ == old(self).items@.push(country),
            final(self).selected == old(self).selected,
            final(self).state == old(self).state,
            old(self).wf() ==> final(self).wf(),
    {
        self.items.push(country);
    }

    /// The selected country, or nothing for the default entry.
    pub fn selected_item(&self) -> (r: Option<Country>)
        ensures
            match r {
                Some(c) => {
                    &&& self.selected is Some
                    &&& (self.selected->0 as int) < self.items@.len()
                    &&& c == self.items@[self.selected->0 as int]
                },
                None => self.selected is None || self.selected->0 >= self.items@.len(),
            },
            self.wf() && self.selected is Some ==> r is Some,
    {
        match self.selected {
            Some(i) => {
                if i < self.items.len() {
                    Some(self.items[i])
                } else {
                    None
                }
            },
            None => None,
        }
    }

    /// Selects the item offered for the country with the given enumeration
    /// position, reporting whether one was found; no match keeps the
    /// selection.
    pub fn select_item_by_index(&mut self, index: usize) -> (found: bool)
        ensures
            found == exists|t: int|
                0 <= t < old(self).items@.len() && (#[trigger] old(self).items@[
                    t
                ]).ordinal_spec() == index,
            found ==> {
                &&& final(self).selected is Some
                &&& (final(self).selected->0 as int) < old(self).items@.len()
                &&& old(self).items@[final(self).selected->0 as int].ordinal_spec() == index
            },
            !found ==> final(self).selected == old(self).selected,
            final(self).items == old(self).items,
            final(self).state == old(self).state,
            old(self).wf() ==> final(self).wf(),
    {
        let mut t: usize = 0;
        while t < self.items.len()
            invariant
                self == old(self),
                t <= self.items@.len(),
                forall|u: int|
                    0 <= u < t ==> (#[trigger] self.items@[u]).ordinal_spec() != index,
            decreases self.items@.len() - t,
        {
            if self.items[t].ordinal() == index {
                self.selected = Some(t);
                return true;
            }
            t += 1;
        }
        false
    }

    /// Returns the selection to the default entry.
    pub fn select_default_item(&mut self)
        ensures
            final(self).selected is None,
            final(self).items == old(self).items,
            final(self).state == old(self).state,
            final(self).wf(),
    {
        self.selected = None;
    }
}

/// One sidebar category row: the category's position and whether the row is
/// shown under the current filter.
pub struct SidebarRow {
    /// The category's position in the catalog.
    pub index: usize,
    /// Whether the row is shown.
    pub visible: bool,
}

/// The sidebar's category list.
pub struct SidebarCategoryList {
    /// The rows, in the order they were appended.
    pub rows: Vec<SidebarRow>,
    /// The selected row position, if any.
    pub selected: Option<usize>,
}

impl SidebarCategoryList {
    /// Appends one category row, shown by default.
    pub fn append_row(&mut self, index: usize)
        ensures
            final(self).rows@ == old(self).rows@.push(SidebarRow { index, visible: true }),
            final(self).selected == old(self).selected,
    {
        self.rows.push(SidebarRow { index, visible: true });
    }

    /// Selects the row at one position; an out-of-range position keeps the
    /// selection.
    pub fn select_row_by_index(&mut self, index: usize)
        ensures
            index < old(self).rows@.len() ==> final(self).selected == Some(index),
            index >= old(self).rows@.len() ==> final(self).selected == old(self).selected,
            final(self).rows == old(self).rows,
    {
        if index < self.rows.len() {
            self.selected = Some(index);
        }
    }

    /// Selects the first row when one exists.
    pub fn select_first(&mut self)
        ensures
            old(self).rows@.len() > 0 ==> final(self).selected == Some(0usize),
            old(self).rows@.len() == 0 ==> final(self).selected == old(self).selected,
            final(self).rows == old(self).rows,
    {
        self.select_row_by_index(0);
    }

    /// Shows every row again.
    pub fn show_all_rows(&mut self)
        ensures
            final(self).rows@.len() == old(self).rows@.len(),
            forall|t: int|
                0 <= t < old(self).rows@.len() ==> (#[trigger] final(self).rows@[t]).index == old(
                    self,
                ).rows@[t].index && final(self).rows@[t].visible,
            final(self).selected == old(self).selected,
    {
        let n = self.rows.len();
        let mut i: usize = 0;
        while i < n
            invariant
                n == self.rows@.len(),
                n == old(self).rows@.len(),
                self.selected == old(self).selected,
                i <= n,
                forall|t: int|
                    0 <= t < n ==> (#[trigger] self.rows@[t]).index == old(self).rows@[t].index,
                forall|t: int| 0 <= t < i ==> (#[trigger] self.rows@[t]).visible,
            decreases n - i,
        {
            let idx = self.rows[i].index;
            self.rows[i] = SidebarRow { index: idx, visible: true };
            i += 1;
        }
    }
}

/// One overview row: a product's position and whether it is shown.
pub struct OverviewRow {
    /// The product's position in the catalog.
    pub index: usize,
    /// Whether the row is shown.
    pub visible: bool,
}

/// One overview group: a category's products.
pub struct OverviewGroup {
    /// The category's position in the catalog.
    pub index: usize,
    /// The product rows, in display order.
    pub rows: Vec<OverviewRow>,
}

impl OverviewGroup {
    /// Appends one product row, shown by default.
    pub fn append_row(&mut self, index: usize)
        ensures
            final(self).rows@ == old(self).rows@.push(OverviewRow { index, visible: true }),
            final(self).index == old(self).index,
    {
        self.rows.push(OverviewRow { index, visible: true });
    }
}

/// The overview page: one group per displayed category.
pub struct OverviewPage {
    /// The groups, in display order.
    pub groups: Vec<OverviewGroup>,
    /// The group the viewport currently rests on.
    pub active_group: usize,
}

impl OverviewPage {
    /// Adds one group to the end and answers that group's category
    /// position; the first group added to an empty page becomes the active
    /// one.
    pub fn add_group(&mut self, group: OverviewGroup) -> (r: usize)
        ensures
            r == group.index,
            final(self).groups@ == old(self).groups@.push(group),
            old(self).groups@.len() == 0 ==> final(self).active_group == group.index,
            old(self).groups@.len() > 0 ==> final(self).active_group == old(self).active_group,
    {
        let index = group.index;
        let was_empty = self.groups.len() == 0;
        self.groups.push(group);
        if was_empty {
            self.active_group = index;
        }
        index
    }

    /// The position of the active group.
    pub fn active_group_index(&self) -> (r: usize)
        ensures
            r == self.active_group,
    {
        self.active_group
    }

    /// Rests the viewport on the first group.
    pub fn scroll_to_top(&mut self)
        ensures
            final(self).active_group == 0,
            final(self).groups == old(self).groups,
    {
        self.active_group = 0;
    }

    /// Rests the viewport on the group at one position; an out-of-range
    /// position keeps the current group.
    pub fn scroll_to_group_index(&mut self, index: usize)
        ensures
            index < old(self).groups@.len() ==> final(self).active_group == index,
            index >= old(self).groups@.len() ==> final(self).active_group == old(
                self,
            ).active_group,
            final(self).groups == old(self).groups,
    {
        if index < self.groups.len() {
            self.active_group = index;
        }
    }
}

/// The product detail page: which product it shows and its rows by kind.
pub struct ProductPage {
    /// The shown product's position in the catalog.
    pub index: usize,
    /// The rows, each a kind with its label, in display order.
    pub rows: Vec<(ProductRowType, String)>,
}

impl ProductPage {
    /// Removes every row.
    pub fn remove_all_rows(&mut self)
        ensures
            final(self).rows@.len() == 0,
            final(self).index == old(self).index,
    {
        self.rows.clear();
    }

    /// Appends one row of the given kind.
    pub fn append_row(&mut self, kind: ProductRowType, label: String)
        ensures
            final(self).rows@ == old(self).rows@.push((kind, label)),
            final(self).index == old(self).index,
    {
        self.rows.push((kind, label));
    }
}

/// The sidebar: the search and country rows and the category list.
pub struct Sidebar {
    /// The search row.
    pub search_row: SidebarSearchRow,
    /// The country filter row.
    pub country_row: SidebarCountryRow,
    /// The category list.
    pub category_list: SidebarCategoryList,
}

/// The main page: the sidebar beside the overview.
pub struct MainPage {
    /// The sidebar.
    pub sidebar: Sidebar,
    /// The overview page.
    pub overview: OverviewPage,
}

/// The navigation: a page stack over the main and product pages.
pub struct Navigation {
    /// The visible pages, innermost first.
    pub stack: Vec<NavigationPage>,
    /// The main page's state.
    pub main_page: MainPage,
    /// The product page's state.
    pub product_page: ProductPage,
}

impl Navigation {
    /// Shows a page on top of the current one.
    pub fn push_page(&mut self, page: NavigationPage)
        ensures
            final(self).stack@ == old(self).stack@.push(page),
            final(self).main_page == old(self).main_page,
            final(self).product_page == old(self).product_page,
    {
        self.stack.push(page);
    }

    /// Replaces the whole stack with a single page.
    pub fn replace_with_page(&mut self, page: NavigationPage)
        ensures
            final(self).stack@ =~= seq![page],
            final(self).main_page == old(self).main_page,
            final(self).product_page == old(self).product_page,
    {
        self.stack.clear();
        self.stack.push(page);
    }

    /// The page currently shown, if any.
    pub fn page(&self) -> (r: Option<NavigationPage>)
        ensures
            self.stack@.len() > 0 ==> r == Some(self.stack@.last()),
            self.stack@.len() == 0 ==> r is None,
    {
        if self.stack.len() > 0 {
            Some(self.stack[self.stack.len() - 1])
        } else {
            None
        }
    }

    /// Leaves the topmost page, reporting whether one was left. The last
    /// remaining page stays.
    pub fn pop(&mut self) -> (r: bool)
        ensures
            old(self).stack@.len() > 1 ==> r && final(self).stack@ == old(self).stack@.drop_last(),
            old(self).stack@.len() <= 1 ==> !r && final(self).stack@ == old(self).stack@,
            final(self).main_page == old(self).main_page,
            final(self).product_page == old(self).product_page,
    {
        if self.stack.len() > 1 {
            self.stack.pop();
            true
        } else {
            false
        }
    }
}

/// The window: its navigation content.
pub struct Window {
    /// The navigation content.
    pub navigation: Navigation,
}

/// The whole user-interface state.
pub struct Ui {
    /// The application window.
    pub window: Window,
}

impl Ui {
    /// A freshly opened window showing the startup page.
    pub fn new(window: Window) -> (r: Ui)
        ensures
            r.window == window,
    {
        Ui { window }
    }

    /// Shows the main page, replacing whatever was on the stack.
    pub fn activate(&mut self)
        ensures
            final(self).window.navigation.stack@ =~= seq![NavigationPage::Main],
            final(self).window.navigation.main_page == old(self).window.navigation.main_page,
            final(self).window.navigation.product_page == old(self).window.navigation.product_page,
    {
        self.window.navigation.replace_with_page(NavigationPage::Main);
    }

    /// The window state.
    pub fn window(&self) -> (r: &Window)
        ensures
            *r == self.window,
    {
        &self.window
    }

    /// The navigation state.
    pub fn navigation(&self) -> (r: &Navigation)
        ensures
            *r == self.window.navigation,
    {
        &self.window.navigation
    }

    /// The sidebar state.
    pub fn sidebar(&self) -> (r: &Sidebar)
        ensures
            *r == self.window.navigation.main_page.sidebar,
    {
        &self.window.navigation.main_page.sidebar
    }

    /// The main page state.
    pub fn main_page(&self) -> (r: &MainPage)
        ensures
            *r == self.window.navigation.main_page,
    {
        &self.window.navigation.main_page
    }

    /// The country filter row state.
    pub fn country_row(&self) -> (r: &SidebarCountryRow)
        ensures
            *r == self.window.navigation.main_page.sidebar.country_row,
    {
        &self.window.navigation.main_page.sidebar.country_row
    }

    /// The search row state.
    pub fn search_row(&self) -> (r: &SidebarSearchRow)
        ensures
            *r == self.window.navigation.main_page.sidebar.search_row,
    {
        &self.window.navigation.main_page.sidebar.search_row
    }

    /// The category list state.
    pub fn category_list(&self) -> (r: &SidebarCategoryList)
        ensures
            *r == self.window.navigation.main_page.sidebar.category_list,
    {
        &self.window.navigation.main_page.sidebar.category_list
    }

    /// The overview page state.
    pub fn overview_page(&self) -> (r: &OverviewPage)
        ensures
            *r == self.window.navigation.main_page.overview,
    {
        &self.window.navigation.main_page.overview
    }

    /// The product page state.
    pub fn product_page(&self) -> (r: &ProductPage)
        ensures
            *r == self.window.navigation.product_page,
    {
        &self.window.navigation.product_page
    }
}

} // verus!

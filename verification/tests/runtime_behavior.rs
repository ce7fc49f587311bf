//! Behavior of the runtime side: the ordered map, the repository views, the
//! search engine and the user-interface state model.

use european_choice::catalog::Catalog;
use european_choice::country::Country;
use european_choice::model::{Category, Product};
use european_choice::ordered_map::OrderedMap;
use european_choice::populate::Populator;
use european_choice::repository::Repository;
use european_choice::search::{normalize_text, tokenize, SearchEngine};
use european_choice::ui::{
    MainPage, Navigation, NavigationPage, OverviewPage, ProductPage, ProductRowType, Sidebar,
    SidebarCategoryList, SidebarCountryRow, SidebarCountryRowState, SidebarSearchRow,
    SidebarSearchRowState, Ui, Window,
};

fn make_category(slug: &str, name: &str, description: &str) -> Category {
    Category {
        slug: slug.to_string(),
        name: name.to_string(),
        description: description.to_string(),
        summary: description.to_string(),
        icon: slug.to_string(),
    }
}

fn make_product(name: &str, slugs: &[&str], country: Option<Country>, description: &str) -> Product {
    Product {
        categories: slugs.iter().map(|s| s.to_string()).collect(),
        logo: "logo".to_string(),
        name: name.to_string(),
        description: description.to_string(),
        summary: description.to_string(),
        country,
        websites: vec![("European Alternatives".to_string(), format!("/product/{name}"))],
    }
}

fn sample_repository() -> Repository {
    let cats = vec![
        make_category("mail", "Mail", "Email providers."),
        make_category("cloud", "Cloud", "Cloud storage."),
    ];
    let prods = vec![
        make_product("Arrow Mail", &["mail"], Some(Country::Germany), "Secure email hosting."),
        make_product("Boxcloud", &["cloud"], Some(Country::France), "File storage service."),
        make_product(
            "Combined Suite",
            &["mail", "cloud"],
            None,
            "Mail and storage together.",
        ),
    ];
    Repository::new(Catalog::build(cats, prods).unwrap())
}

fn empty_ui() -> Ui {
    Ui::new(Window {
        navigation: Navigation {
            stack: vec![NavigationPage::Loading],
            main_page: MainPage {
                sidebar: Sidebar {
                    search_row: SidebarSearchRow {
                        state: SidebarSearchRowState::Idle,
                        text: String::new(),
                    },
                    country_row: SidebarCountryRow {
                        state: SidebarCountryRowState::Inactive,
                        items: Vec::new(),
                        selected: None,
                    },
                    category_list: SidebarCategoryList { rows: Vec::new(), selected: None },
                },
                overview: OverviewPage { groups: Vec::new(), active_group: 0 },
            },
            product_page: ProductPage { index: 0, rows: Vec::new() },
        },
    })
}

#[test]
fn ordered_map_keeps_insertion_order() {
    let mut map: OrderedMap<String> = OrderedMap::new();
    assert!(map.is_empty());
    assert!(map.insert(7, "seven".to_string()).is_none());
    assert!(map.insert(3, "three".to_string()).is_none());
    assert_eq!(map.insert(7, "seven again".to_string()), Some("seven".to_string()));
    assert_eq!(map.len(), 2);
    assert_eq!(map.get(7), Some(&"seven again".to_string()));
    assert_eq!(map.get(4), None);
    assert_eq!(map.get_by_index(0), Some(&"seven again".to_string()));
    assert_eq!(map.get_by_index(1), Some(&"three".to_string()));
    assert_eq!(map.first().unwrap().0, 7);
    assert_eq!(map.last().unwrap().0, 3);
    let pairs = map.iter();
    assert_eq!(pairs.len(), 2);
    assert_eq!(pairs[0].0, 7);
    assert_eq!(pairs[1].0, 3);
    assert_eq!(map.remove(7), Some("seven again".to_string()));
    assert_eq!(map.remove(7), None);
    assert_eq!(map.len(), 1);
    assert_eq!(map.first().unwrap().0, 3);
}

#[test]
fn country_enumeration_round_trips() {
    assert_eq!(Country::parse("Czech Republic"), Some(Country::CzechRepublic));
    assert_eq!(Country::parse("cz"), Some(Country::CzechRepublic));
    assert_eq!(Country::parse("Atlantis"), None);
    assert_eq!(Country::Germany.display_name(), "Germany");
    assert_eq!(Country::UnitedKingdom.slug(), "united_kingdom");
    assert_eq!(Country::Austria.code(), "at");
    let all = Country::all();
    assert_eq!(all.len(), 30);
    for (i, c) in all.iter().enumerate() {
        assert_eq!(c.ordinal(), i);
        assert_eq!(Country::from_index(i), Some(*c));
    }
    assert_eq!(Country::from_index(30), None);
}

#[test]
fn repository_lookups_and_sorted_views() {
    let repo = sample_repository();
    assert_eq!(repo.category_index_by_slug("cloud"), Some(1));
    assert_eq!(repo.category_index_by_slug("nope"), None);
    assert_eq!(repo.product_index_by_name("Boxcloud"), Some(1));
    assert_eq!(repo.product_by_index(2).unwrap().name, "Combined Suite");
    assert!(repo.product_by_index(9).is_none());
    assert_eq!(repo.category_by_index(0).unwrap().slug, "mail");

    let sorted = repo.categories_sorted();
    assert_eq!(sorted.len(), 2);
    assert_eq!(sorted[0].1.slug, "cloud");
    assert_eq!(sorted[0].0, 1);
    assert_eq!(sorted[1].1.slug, "mail");

    let mail = repo.category_by_index(0).unwrap().clone();
    let mail_products = repo.category_products_sorted(&mail).unwrap();
    assert_eq!(mail_products.len(), 2);
    assert_eq!(mail_products[0].1.name, "Arrow Mail");
    assert_eq!(mail_products[1].1.name, "Combined Suite");

    let germany = repo.product_indices_by_country(Country::Germany).unwrap();
    assert_eq!(germany, &vec![0]);

    let countries = Repository::countries_sorted();
    assert_eq!(countries.len(), 30);
    assert_eq!(countries[0], Country::Austria);
    for pair in countries.windows(2) {
        assert!(pair[0].slug() < pair[1].slug());
    }
}

#[test]
fn normalization_strips_punctuation_and_case() {
    assert_eq!(normalize_text("  Héllo,  Wörld!  "), "héllo wörld");
    assert_eq!(normalize_text("A--B"), "ab");
    let tokens = tokenize("Secure E-Mail, fast!");
    assert_eq!(tokens, vec!["secure".to_string(), "email".to_string(), "fast".to_string()]);
    let short = tokenize("a of to");
    assert!(short.is_empty());
}

#[test]
fn search_matches_by_token_containment() {
    let engine = SearchEngine::new(sample_repository());
    let hits = engine.find_matching_products("storage");
    assert_eq!(hits, vec![1, 2]);
    let hits = engine.find_matching_products("Germany");
    assert_eq!(hits, vec![0]);
    let hits = engine.find_matching_products("xyzzy");
    assert!(hits.is_empty());
}

#[test]
fn categorized_answers_respect_query_and_country_filter() {
    let engine = SearchEngine::new(sample_repository());
    let all = engine.find_by_category("", None);
    assert!(all.has_any_matches);
    assert_eq!(all.by_category.len(), 2);
    assert_eq!(all.by_category[0], vec![(0, true), (2, true)]);
    assert_eq!(all.by_category[1], vec![(1, true), (2, true)]);

    let storage = engine.find_by_category("storage", None);
    assert!(storage.has_any_matches);
    assert_eq!(storage.by_category[0], vec![(0, false), (2, true)]);
    assert_eq!(storage.by_category[1], vec![(1, true), (2, true)]);

    let german_only = engine.find_by_category("", Some(Country::Germany));
    assert_eq!(german_only.by_category[0], vec![(0, true), (2, false)]);
    assert_eq!(german_only.by_category[1], vec![(1, false), (2, false)]);

    let nothing = engine.find_by_category("xyzzy", Some(Country::Malta));
    assert!(!nothing.has_any_matches);
}

#[test]
fn navigation_stack_replaces_pushes_and_pops() {
    let mut ui = empty_ui();
    assert_eq!(ui.navigation().page(), Some(NavigationPage::Loading));
    ui.activate();
    assert_eq!(ui.navigation().page(), Some(NavigationPage::Main));
    ui.window.navigation.push_page(NavigationPage::Product);
    assert_eq!(ui.navigation().page(), Some(NavigationPage::Product));
    assert!(ui.window.navigation.pop());
    assert_eq!(ui.navigation().page(), Some(NavigationPage::Main));
    assert!(!ui.window.navigation.pop());
}

#[test]
fn populate_fills_sidebar_and_overview_from_catalog() {
    let repo = sample_repository();
    let mut ui = empty_ui();
    Populator::populate(&mut ui, &repo);

    // countries with products, sorted by slug
    let items = &ui.country_row().items;
    assert_eq!(items, &vec![Country::France, Country::Germany]);

    // one category row per category, sorted by slug
    let rows = &ui.category_list().rows;
    assert_eq!(rows.len(), 2);
    assert_eq!(rows[0].index, 1);
    assert_eq!(rows[1].index, 0);
    assert!(rows.iter().all(|r| r.visible));

    // one overview group per category with its products sorted by name;
    // the first group added became the active one
    assert_eq!(ui.overview_page().active_group_index(), 1);
    let groups = &ui.overview_page().groups;
    assert_eq!(groups.len(), 2);
    assert_eq!(groups[0].index, 1);
    assert_eq!(
        groups[0].rows.iter().map(|r| r.index).collect::<Vec<_>>(),
        vec![1, 2]
    );
    assert_eq!(groups[1].index, 0);
    assert_eq!(
        groups[1].rows.iter().map(|r| r.index).collect::<Vec<_>>(),
        vec![0, 2]
    );
}

#[test]
fn widget_state_transitions() {
    let mut ui = empty_ui();
    let changed = ui.window.navigation.main_page.sidebar.search_row.set_state(
        SidebarSearchRowState::Active,
    );
    assert!(changed);
    let unchanged = ui.window.navigation.main_page.sidebar.search_row.set_state(
        SidebarSearchRowState::Active,
    );
    assert!(!unchanged);
    ui.window.navigation.main_page.sidebar.search_row.text = "query".to_string();
    assert_eq!(ui.search_row().search_text(), "query");
    assert!(!ui.search_row().is_empty());
    ui.window.navigation.main_page.sidebar.search_row.clear_search();
    assert!(ui.search_row().is_empty());

    ui.window.navigation.main_page.sidebar.country_row.add_item(Country::Spain);
    assert!(ui.country_row().is_selected_default());
    let found = ui
        .window
        .navigation
        .main_page
        .sidebar
        .country_row
        .select_item_by_index(Country::Spain.ordinal());
    assert!(found);
    assert_eq!(ui.country_row().selected_item(), Some(Country::Spain));
    let missing = ui
        .window
        .navigation
        .main_page
        .sidebar
        .country_row
        .select_item_by_index(Country::Malta.ordinal());
    assert!(!missing);
    assert_eq!(ui.country_row().selected_item(), Some(Country::Spain));
    ui.window.navigation.main_page.sidebar.country_row.select_default_item();
    assert_eq!(ui.country_row().selected_item(), None);

    ui.window.navigation.product_page.append_row(ProductRowType::Website, "Site".to_string());
    assert_eq!(ui.product_page().rows.len(), 1);
    ui.window.navigation.product_page.remove_all_rows();
    assert!(ui.product_page().rows.is_empty());
}

//! End-to-end behavior of the build pipeline: discovery, extraction,
//! indexing, code generation, icon harvesting and orchestration decisions.

use european_choice::catalog::Catalog;
use european_choice::codegen::catalog_code;
use european_choice::country::Country;
use european_choice::error::BuildError;
use european_choice::executor::{collect_outcomes, order_results};
use european_choice::extract::{
    add_product_urls, discover_category_links, discover_product_links, extract_category,
    extract_product, first_sentence, remove_european_prefix, summarize,
};
use european_choice::icons::{
    build_resources_xml, convert_icon, country_flag_icons, IconOutput, IconRegistry,
};
use european_choice::model::{Category, Icon, Product};
use european_choice::pipeline::plan_build;
use european_choice::resources::{build_final_resources_xml, replace_exactly};

fn category_page(heading: &str, paragraph: &str, logo: &str) -> String {
    format!(
        "<html><body><h1>{heading}</h1>\
         <div class=\"prose\"><p>{paragraph}</p></div>\
         <img src=\"{logo}\"/></body></html>"
    )
}

fn make_category(slug: &str, name: &str) -> Category {
    Category {
        slug: slug.to_string(),
        name: name.to_string(),
        description: format!("All about {name}."),
        summary: format!("All about {name}."),
        icon: slug.to_string(),
    }
}

fn make_product(name: &str, slugs: &[&str], country: Option<Country>) -> Product {
    Product {
        categories: slugs.iter().map(|s| s.to_string()).collect(),
        logo: "logo".to_string(),
        name: name.to_string(),
        description: format!("{name} description."),
        summary: format!("{name} description."),
        country,
        websites: vec![(
            "European Alternatives".to_string(),
            format!("/product/{name}"),
        )],
    }
}

#[test]
fn categories_index_lists_cloud_and_search() {
    let html = "<html><body>\
        <div><a href=\"/category/cloud\">European Cloud</a></div>\
        <div><a href=\"/category/search\">European Search</a></div>\
        <a href=\"/category/cloud\">again</a>\
        </body></html>";
    let pairs = discover_category_links(html).unwrap();
    assert_eq!(pairs.len(), 2);
    assert_eq!(pairs[0].0, "/category/cloud");
    assert_eq!(pairs[0].1, "cloud");
    assert_eq!(pairs[1].0, "/category/search");
    assert_eq!(pairs[1].1, "search");
}

#[test]
fn category_pages_yield_entries_with_first_sentence_summaries() {
    let cloud = category_page(
        " European Cloud ",
        "Cloud services in Europe. More text follows here.",
        "https://cdn.example/categoryLogo/cloud.svg",
    );
    let (cat, icon) = extract_category(&cloud, "cloud".to_string()).unwrap();
    assert_eq!(cat.slug, "cloud");
    assert_eq!(cat.name, "Cloud");
    assert_eq!(cat.description, "Cloud services in Europe. More text follows here.");
    assert_eq!(cat.summary, "Cloud services in Europe.");
    assert_eq!(icon.url, "https://cdn.example/categoryLogo/cloud.svg");
    assert_eq!(icon.name, "cloud");
    assert_eq!(cat.icon, "cloud");

    let search = category_page(
        "European Search",
        "Search engines made in Europe. Privacy first.",
        "https://cdn.example/categoryLogo/search.svg",
    );
    let (cat2, _) = extract_category(&search, "search".to_string()).unwrap();
    assert_eq!(cat2.name, "Search");
    assert_eq!(cat2.summary, "Search engines made in Europe.");
}

#[test]
fn category_page_without_heading_is_a_parse_error() {
    let html = "<html><body><div class=\"prose\"><p>Text.</p></div></body></html>";
    let err = extract_category(html, "x".to_string()).unwrap_err();
    assert!(matches!(err, BuildError::Parse(_)));
    assert_eq!(err.message(), "Category name not found");
}

#[test]
fn product_linked_from_two_categories_owns_both_slugs() {
    let cloud_listing = "<html><body>\
        <div><a href=\"/product/acme\">Acme</a></div>\
        </body></html>";
    let search_listing = "<html><body>\
        <div><a href=\"/product/acme\">Acme</a></div>\
        <div><a href=\"/product/other\">Other</a></div>\
        </body></html>";
    let mut acc: Vec<(String, Vec<String>)> = Vec::new();
    let cloud_links = discover_product_links(cloud_listing).unwrap();
    add_product_urls(&mut acc, &cloud_links, "cloud");
    let search_links = discover_product_links(search_listing).unwrap();
    add_product_urls(&mut acc, &search_links, "search");
    assert_eq!(acc.len(), 2);
    assert_eq!(acc[0].0, "/product/acme");
    assert_eq!(acc[0].1, vec!["cloud".to_string(), "search".to_string()]);
    assert_eq!(acc[1].0, "/product/other");
    assert_eq!(acc[1].1, vec!["search".to_string()]);

    // the shared product stands once in each category's reverse-index bucket
    let categories = vec![make_category("cloud", "Cloud"), make_category("search", "Search")];
    let product = make_product("Acme", &["cloud", "search"], None);
    let catalog = Catalog::build(categories, vec![product]).unwrap();
    assert_eq!(catalog.category_to_products[0], vec![0]);
    assert_eq!(catalog.category_to_products[1], vec![0]);
}

#[test]
fn product_page_extraction_assembles_all_fields() {
    let html = "<html><body><h1>acme mail</h1>\
        <div class=\"prose\"><p> First paragraph. Second sentence here. </p>\
        <p>Second para text.</p><h2>stop</h2><p>ignored tail</p></div>\
        <img src=\"https://cdn.example/productLogo/acme.PNG\"/>\
        <img src=\"https://cdn.example/countryFlags/4x3/de.svg\"/><span>Germany</span>\
        <a href=\"https://acme.example\"><span>Website</span></a>\
        </body></html>";
    let (product, icon) = extract_product(
        html,
        "https://european-alternatives.eu/product/acme",
        vec!["cloud".to_string()],
    )
    .unwrap();
    assert_eq!(product.name, "Acme Mail");
    assert_eq!(
        product.description,
        "First paragraph. Second sentence here.\n\nSecond para text."
    );
    assert_eq!(product.summary, "First paragraph.Second sentence here.");
    assert_eq!(product.country, Some(Country::Germany));
    assert_eq!(product.logo, "acme_mail");
    assert_eq!(icon.extension, "png");
    assert_eq!(icon.filename, "acme_mail.png");
    assert_eq!(product.websites.len(), 2);
    assert_eq!(product.websites[0].0, "Company");
    assert_eq!(product.websites[0].1, "https://acme.example");
    assert_eq!(product.websites[1].0, "European Alternatives");
    assert_eq!(
        product.websites[1].1,
        "https://european-alternatives.eu/product/acme"
    );
}

#[test]
fn product_without_qualifying_anchor_links_only_its_own_page() {
    let html = "<html><body><h1>plain</h1>\
        <div class=\"prose\"><p>Text.</p></div>\
        <img src=\"https://cdn.example/productLogo/plain.svg\"/>\
        <a href=\"https://twitter.com/plain\"><span>social</span></a>\
        <a href=\"https://european-alternatives.eu/more\"><span>internal</span></a>\
        </body></html>";
    let (product, _) = extract_product(
        html,
        "https://european-alternatives.eu/product/plain",
        vec![],
    )
    .unwrap();
    assert_eq!(product.websites.len(), 1);
    assert_eq!(product.websites[0].0, "European Alternatives");
    assert_eq!(
        product.websites[0].1,
        "https://european-alternatives.eu/product/plain"
    );
}

#[test]
fn upper_case_vector_extension_is_classified_as_vector() {
    let icon = Icon::from_url("https://cdn.example/categoryLogo/logo.SVG".to_string(), "My App");
    assert_eq!(icon.extension, "svg");
    assert_eq!(icon.name, "my_app");
    assert_eq!(icon.filename, "my_app.svg");
    assert!(icon.is_svg());
    let svg_bytes = b"<svg xmlns=\"http://www.w3.org/2000/svg\" width=\"4\" height=\"4\">\
        <rect width=\"4\" height=\"4\" fill=\"#102030\"/></svg>"
        .to_vec();
    match convert_icon(&icon, svg_bytes.clone()).unwrap() {
        IconOutput::Vector(xml) => {
            assert!(xml.contains("<svg"));
            assert_ne!(xml.as_bytes(), svg_bytes.as_slice());
        }
        IconOutput::Raster(_) => panic!("vector source must stay vector"),
    }
}

#[test]
fn raster_sources_pass_through_or_are_reencoded() {
    let png_icon = Icon::from_url("https://cdn.example/productLogo/a.png".to_string(), "A");
    let bytes = vec![1u8, 2, 3];
    match convert_icon(&png_icon, bytes.clone()).unwrap() {
        IconOutput::Raster(out) => assert_eq!(out, bytes),
        IconOutput::Vector(_) => panic!("raster stays raster"),
    }

    let bmp_icon = Icon::from_url("https://cdn.example/productLogo/b.bmp".to_string(), "B");
    let img = image::DynamicImage::ImageRgba8(image::RgbaImage::new(2, 2));
    let mut buf = std::io::Cursor::new(Vec::new());
    img.write_to(&mut buf, image::ImageFormat::Bmp).unwrap();
    let bmp_bytes = buf.into_inner();
    match convert_icon(&bmp_icon, bmp_bytes.clone()).unwrap() {
        IconOutput::Raster(out) => {
            assert_ne!(out, bmp_bytes);
            assert_eq!(&out[1..4], b"PNG");
        }
        IconOutput::Vector(_) => panic!("raster stays raster"),
    }

    let bad_icon = Icon::from_url("https://cdn.example/productLogo/c.jpg".to_string(), "C");
    let err = convert_icon(&bad_icon, vec![0, 1, 2]).unwrap_err();
    assert!(matches!(err, BuildError::Conversion(_)));
}

#[test]
fn shared_icon_source_yields_one_registry_entry() {
    let mut registry = IconRegistry::new();
    let a = Icon::from_url("https://cdn.example/categoryLogo/one.svg".to_string(), "First Owner");
    let b = Icon::from_url("https://cdn.example/categoryLogo/one.svg".to_string(), "Second Owner");
    let c = Icon::from_url("https://cdn.example/categoryLogo/two.png".to_string(), "Third");
    registry.register_all(vec![a, b, c]);
    assert_eq!(registry.entries.len(), 2);
    assert_eq!(registry.entries[0].url, "https://cdn.example/categoryLogo/one.svg");
    // the last registration under a shared address wins, position kept
    assert_eq!(registry.entries[0].name, "second_owner");
    let xml = build_resources_xml(&registry);
    assert_eq!(
        xml,
        "<file compressed=\"true\" preprocess=\"xml-stripblanks\" alias=\"second_owner.svg\">second_owner.svg</file>\n\
         <file compressed=\"true\" alias=\"third.png\">third.png</file>"
    );
}

#[test]
fn country_flags_cover_the_whole_enumeration() {
    let flags = country_flag_icons();
    assert_eq!(flags.len(), 30);
    assert_eq!(flags[0].url, "https://cdn.european-alternatives.eu/countryFlags/4x3/at.svg");
    assert_eq!(flags[0].name, "austria");
    assert!(flags.iter().all(|f| f.extension == "svg"));
}

#[test]
fn duplicate_slugs_names_and_unknown_relations_are_data_errors() {
    let cats = vec![make_category("cloud", "Cloud"), make_category("cloud", "Cloud Two")];
    let err = Catalog::build(cats, vec![]).unwrap_err();
    assert!(matches!(err, BuildError::Data(_)));

    let cats = vec![make_category("cloud", "Cloud")];
    let prods = vec![
        make_product("Same", &["cloud"], None),
        make_product("Same", &["cloud"], None),
    ];
    let err = Catalog::build(cats, prods).unwrap_err();
    assert!(matches!(err, BuildError::Data(_)));

    let cats = vec![make_category("cloud", "Cloud")];
    let prods = vec![make_product("Lonely", &["missing"], None)];
    let err = Catalog::build(cats, prods).unwrap_err();
    assert!(matches!(err, BuildError::Data(_)));
}

#[test]
fn indices_map_each_key_to_its_position() {
    let cats = vec![make_category("cloud", "Cloud"), make_category("search", "Search")];
    let prods = vec![
        make_product("Alpha", &["cloud"], Some(Country::France)),
        make_product("Beta", &["search"], None),
        make_product("Gamma", &["cloud", "search"], Some(Country::France)),
    ];
    let catalog = Catalog::build(cats, prods).unwrap();
    assert_eq!(catalog.slug_index.len(), 2);
    assert_eq!(catalog.slug_index[0], ("cloud".to_string(), 0));
    assert_eq!(catalog.slug_index[1], ("search".to_string(), 1));
    assert_eq!(catalog.name_index[2], ("Gamma".to_string(), 2));
    assert_eq!(catalog.category_to_products[0], vec![0, 2]);
    assert_eq!(catalog.category_to_products[1], vec![1, 2]);
    let france = Country::France.ordinal();
    assert_eq!(catalog.country_to_products[france], vec![0, 2]);
    // a product without a country stands in no bucket
    for bucket in &catalog.country_to_products {
        assert!(!bucket.contains(&1));
    }
}

#[test]
fn generated_catalog_literal_embeds_static_maps() {
    let cats = vec![make_category("cloud", "Cloud")];
    let prods = vec![make_product("Alpha", &["cloud"], Some(Country::Austria))];
    let catalog = Catalog::build(cats, prods).unwrap();
    let code = catalog_code(&catalog);
    assert!(code.starts_with("crate::models::Catalog{categories:&["));
    assert!(code.contains("crate::models::Category{slug:\"cloud\""));
    assert!(code.contains("crate::models::Product{categories:&[0]"));
    assert!(code.contains("Some(crate::models::Country::Austria)"));
    assert!(code.contains("categories_map:"));
    assert!(code.contains("phf"));
    assert!(code.contains("category_products:&[&[0]]"));
}

#[test]
fn serial_and_parallel_folds_agree_on_identical_input() {
    let cats: Vec<Category> = (0..3)
        .map(|i| make_category(&format!("cat{i}"), &format!("Cat{i}")))
        .collect();
    let prods: Vec<Product> = (0..5)
        .map(|i| make_product(&format!("Prod{i}"), &[&format!("cat{}", i % 3)], None))
        .collect();
    let first = Catalog::build(cats.clone(), prods.clone()).unwrap();
    let second = Catalog::build(cats, prods).unwrap();
    assert_eq!(catalog_code(&first), catalog_code(&second));

    // tagged task results placed in input order, whatever order they completed
    let serial: Vec<(usize, &str)> = vec![(0, "a"), (1, "b"), (2, "c"), (3, "d"), (4, "e")];
    let parallel: Vec<(usize, &str)> = vec![(3, "d"), (0, "a"), (4, "e"), (2, "c"), (1, "b")];
    let from_serial = order_results(serial, 5).unwrap();
    let from_parallel = order_results(parallel, 5).unwrap();
    assert_eq!(from_serial, from_parallel);
    assert_eq!(from_serial, vec!["a", "b", "c", "d", "e"]);
    assert!(order_results(vec![(0, "a"), (0, "b")], 2).is_none());
}

#[test]
fn first_failure_wins_when_collecting_outcomes() {
    let outcomes: Vec<Result<(u32, Vec<Icon>), BuildError>> = vec![
        Ok((1, vec![])),
        Err(BuildError::Network("first".to_string())),
        Err(BuildError::Parse("second".to_string())),
    ];
    let err = collect_outcomes(outcomes).unwrap_err();
    assert!(matches!(err, BuildError::Network(_)));
    assert_eq!(err.message(), "first");

    let ok: Vec<Result<(u32, Vec<Icon>), BuildError>> = vec![Ok((1, vec![])), Ok((2, vec![]))];
    let (values, icons) = collect_outcomes(ok).unwrap();
    assert_eq!(values, vec![1, 2]);
    assert!(icons.is_empty());
}

#[test]
fn cached_catalog_skips_all_network_stages() {
    let plan = plan_build(true, 0, true, false, false);
    assert!(!plan.fetch_catalog);
    assert!(!plan.run_icon_stage);
    assert!(!plan.compile_resources);

    let fresh = plan_build(false, 4, false, false, false);
    assert!(fresh.fetch_catalog);
    assert!(fresh.run_icon_stage);
    assert!(fresh.compile_resources);

    // a missing manifest alone forces the icon stage
    let manifest_missing = plan_build(true, 0, false, false, false);
    assert!(manifest_missing.run_icon_stage);
}

#[test]
fn placeholder_substitution_demands_exact_counts() {
    let out = replace_exactly("a @X@ b", "@X@", "y", 1).unwrap();
    assert_eq!(out, "a y b");
    let err = replace_exactly("a @X@ b @X@", "@X@", "y", 1).unwrap_err();
    assert!(matches!(err, BuildError::Data(_)));

    let template = "<r prefix=\"@APP_PREFIX@\">@APP_TEMPLATES@|@APP_ICONS@|@APP_PREFIX@</r>";
    let xml = build_final_resources_xml(template, "T", "I", "/pre").unwrap();
    assert_eq!(xml, "<r prefix=\"/pre\">T|I|/pre</r>");
}

#[test]
fn summaries_follow_the_sentence_rules() {
    assert_eq!(first_sentence("One. Two."), "One.");
    assert_eq!(first_sentence("No dot here"), "No dot here");
    assert_eq!(summarize("A one. A two. A three."), "A one.A two.");
    assert_eq!(summarize("Para one.\n\nPara two. More."), "Para one.Para two.");
    assert_eq!(summarize(""), "");
    assert_eq!(remove_european_prefix("European Cloud"), Some("Cloud".to_string()));
    assert_eq!(european_choice::extract::name_from_heading("  European Email  "), "Email");
    assert_eq!(european_choice::extract::name_from_heading("Plain Name"), "Plain Name");
    assert_eq!(remove_european_prefix("EUROPEAN search"), Some("Search".to_string()));
    assert_eq!(remove_european_prefix("Europa Cloud"), None);
    assert_eq!(remove_european_prefix("European"), None);
}

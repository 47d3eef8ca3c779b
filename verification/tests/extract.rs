use pushkind_crawlers::count::{count_text, parse_count};
use pushkind_crawlers::crawlers::gutenberg::WebstoreCrawlerGutenberg;
use pushkind_crawlers::crawlers::rusteaco::WebstoreCrawlerRusteaco;
use pushkind_crawlers::crawlers::tea101::WebstoreCrawler101Tea;
use pushkind_crawlers::crawlers::{Payload, WebstoreCrawler};
use pushkind_crawlers::extract::{first_attribute, first_text, last_page, links, page_links, trail};
use pushkind_crawlers::pipeline::{unique_links, unique_products};
use pushkind_crawlers::product::Variant;
use pushkind_crawlers::text::{same_text, trim};

const LISTING: &str = r#"<html><body>
<a class="catalog-nav__link" href="/catalog/green/">Green</a>
<a class="catalog-nav__link">No link</a>
<a class="catalog-nav__link" href="https://other.example/black/">Black</a>
<div class="pagination">
  <a class="pagination-links" href="?PAGEN_1=1">1</a>
  <a class="pagination-links" href="?PAGEN_1=2">2</a>
  <a class="pagination-links" href="?PAGEN_1=3"> 3 </a>
</div>
<div class="pagination"><a class="pagination-links">9</a></div>
<div class="product-card__info-bottom"><a href="/p/one">One</a></div>
<div class="product-card__info-bottom"><a href="/p/two?x=1">Two</a></div>
</body></html>"#;

#[test]
fn trims_unicode_white_space() {
    assert_eq!(trim("  a b \t\n"), "a b");
    assert_eq!(trim("\u{a0}\u{3000}x\u{2003}"), "x");
    assert_eq!(trim(" \u{85} "), "");
    assert_eq!(trim(""), "");
    assert_eq!(trim("\u{200b}x"), "\u{200b}x");
}

#[test]
fn compares_texts() {
    assert!(same_text("page", "page"));
    assert!(!same_text("page", "Page"));
    assert!(!same_text("page", "pages"));
    assert!(same_text("", ""));
}

#[test]
fn reads_and_writes_counts() {
    assert_eq!(parse_count("4"), Some(4));
    assert_eq!(parse_count("+12"), Some(12));
    assert_eq!(parse_count("007"), Some(7));
    assert_eq!(parse_count("0"), Some(0));
    assert_eq!(parse_count(""), None);
    assert_eq!(parse_count("+"), None);
    assert_eq!(parse_count("-1"), None);
    assert_eq!(parse_count("1 "), None);
    assert_eq!(parse_count("12a"), None);
    assert_eq!(parse_count(&usize::MAX.to_string()), Some(usize::MAX));
    assert_eq!(parse_count(&format!("{}0", usize::MAX)), None);
    assert_eq!(parse_count("99999999999999999999999999"), None);
    assert_eq!(count_text(0), "0");
    assert_eq!(count_text(7), "7");
    assert_eq!(count_text(1205), "1205");
    assert_eq!(count_text(usize::MAX), usize::MAX.to_string());
}

#[test]
fn first_text_is_trimmed_and_empty_when_missing() {
    let document = "<h1> Tea <b>Green</b>\n</h1><h1>Second</h1>";
    assert_eq!(first_text(document, "h1"), "Tea Green");
    assert_eq!(first_text(document, "h2"), "");
    assert_eq!(first_text(document, "h1 >>> b"), "");
}

#[test]
fn trail_joins_all_matches() {
    let document = r#"<a class="c"> Home </a><a class="c">Tea</a><a>no</a><a class="c">Green </a>"#;
    assert_eq!(trail(document, "a.c"), "Home / Tea / Green");
    assert_eq!(trail(document, "a.d"), "");
    assert_eq!(trail("<a class=c>One</a>", "a.c"), "One");
}

#[test]
fn attribute_of_first_match() {
    let document = r#"<form class="product" data-x="&quot;1&quot;"></form><form class="plain"></form>"#;
    assert_eq!(first_attribute(document, "form.product", "data-x"), Some(Some("\"1\"".to_string())));
    assert_eq!(first_attribute(document, "form.plain", "data-x"), Some(None));
    assert_eq!(first_attribute(document, "form.none", "data-x"), None);
}

#[test]
fn links_are_joined_to_the_base() {
    assert_eq!(
        links(LISTING, "a.catalog-nav__link", "https://101tea.ru/"),
        vec![
            "https://101tea.ru/catalog/green/".to_string(),
            "https://other.example/black/".to_string(),
        ]
    );
    assert!(links(LISTING, "a.catalog-nav__link", "not a base").is_empty());
    assert!(links(LISTING, "a.missing", "https://101tea.ru/").is_empty());
}

#[test]
fn last_page_is_the_last_link_of_the_first_container() {
    assert_eq!(last_page(LISTING, "div.pagination", "a.pagination-links"), Some(3));
    assert_eq!(last_page(LISTING, "div.none", "a.pagination-links"), None);
    assert_eq!(last_page(LISTING, "div.pagination", "a.none"), None);
    assert_eq!(
        last_page("<div class=p><a>1</a><a>next</a></div>", "div.p", "a"),
        None
    );
}

#[test]
fn pagination_derives_the_further_pages() {
    let document = r#"<div class="pagination-items">
        <a class="pagination-link">1</a><a class="pagination-link">2</a>
        <a class="pagination-link">4</a></div>"#;
    let pages = page_links(
        "https://x/y?page=1&sort=asc",
        Some(document),
        "https://x/",
        "div.pagination-items",
        "a.pagination-link",
        "page",
    );
    assert_eq!(
        pages,
        vec![
            "https://x/y?page=1&sort=asc".to_string(),
            "https://x/y?sort=asc&page=2".to_string(),
            "https://x/y?sort=asc&page=3".to_string(),
            "https://x/y?sort=asc&page=4".to_string(),
        ]
    );
}

#[test]
fn pagination_without_document_or_pages() {
    let none = page_links("https://x/y", None, "https://x/", "div.p", "a", "page");
    assert!(none.is_empty());
    let single = page_links("https://x/y", Some("<p>nothing</p>"), "https://x/", "div.p", "a", "page");
    assert_eq!(single, vec!["https://x/y".to_string()]);
    let one = page_links(
        "https://x/y",
        Some("<div class=p><a>1</a></div>"),
        "https://x/",
        "div.p",
        "a",
        "page",
    );
    assert_eq!(one, vec!["https://x/y".to_string()]);
    let relative = page_links(
        "/y?q=a b",
        Some("<div class=p><a>2</a></div>"),
        "https://x/",
        "div.p",
        "a",
        "page",
    );
    assert_eq!(relative, vec!["/y?q=a b".to_string(), "https://x/y?q=a+b&page=2".to_string()]);
}

#[test]
fn tea101_reads_listing_pages() {
    let crawler = WebstoreCrawler101Tea::new(5, 2);
    assert_eq!(crawler.landing_url(), "https://101tea.ru/");
    assert_eq!(crawler.concurrency(), 5);
    assert_eq!(
        crawler.get_category_links(Some(LISTING)),
        vec![
            "https://101tea.ru/catalog/green/".to_string(),
            "https://other.example/black/".to_string(),
        ]
    );
    assert!(crawler.get_category_links(None).is_empty());
    assert_eq!(
        crawler.get_page_links("https://101tea.ru/catalog/green/?PAGEN_1=1&f=2", Some(LISTING)),
        vec![
            "https://101tea.ru/catalog/green/?PAGEN_1=1&f=2".to_string(),
            "https://101tea.ru/catalog/green/?f=2&PAGEN_1=2".to_string(),
            "https://101tea.ru/catalog/green/?f=2&PAGEN_1=3".to_string(),
        ]
    );
    assert!(crawler.get_page_links("https://101tea.ru/catalog/green/", None).is_empty());
    assert_eq!(
        crawler.get_product_links(Some(LISTING)),
        vec!["https://101tea.ru/p/one".to_string(), "https://101tea.ru/p/two?x=1".to_string()]
    );
    assert!(crawler.get_product_links(None).is_empty());
    assert_eq!(crawler.get_product_payload(Some(LISTING)), None);
}

#[test]
fn tea101_reads_a_product() {
    let document = r#"<html><body>
        <a class="breadcrumbs__list-link">Home</a><a class="breadcrumbs__list-link"> Tea </a>
        <h1> Da Hong Pao </h1>
        <div class="catalog-table_content-item_about_product"> Rock tea </div>
        <span class="js-price-val"> 1 250,50 </span>
        <div class="product_art"><span>Art.</span><span> T-77 </span></div>
        <span class="product-card__calculus-unit">г</span>
        <span class="js-product-calc-value">100</span>
        </body></html>"#;
    let crawler = WebstoreCrawler101Tea::new(5, 2);
    let products = crawler.get_product("https://101tea.ru/p/dhp", Some(document), Payload::Absent);
    assert_eq!(products.len(), 1);
    let product = &products[0];
    assert_eq!(product.crawler_id(), 2);
    assert_eq!(product.sku(), "T-77");
    assert_eq!(product.name(), "Da Hong Pao");
    assert_eq!(product.price().to_text(), "1250.5");
    assert_eq!(product.category().as_deref(), Some("Home / Tea"));
    assert_eq!(product.units().as_deref(), Some("г"));
    assert_eq!(product.amount().as_ref().map(|a| a.to_text()), Some("100".to_string()));
    assert_eq!(product.description().as_deref(), Some("Rock tea"));
    assert_eq!(product.url(), "https://101tea.ru/p/dhp");
    assert!(product.images().is_empty());
}

#[test]
fn tea101_drops_a_product_without_price_or_amount() {
    let crawler = WebstoreCrawler101Tea::new(5, 2);
    let no_price = r#"<h1>Tea</h1><div class="product_art"><span>a</span><span>S</span></div>
        <span class="js-product-calc-value">100</span>"#;
    assert!(crawler.get_product("https://101tea.ru/p", Some(no_price), Payload::Absent).is_empty());
    let no_amount = r#"<h1>Tea</h1><div class="product_art"><span>a</span><span>S</span></div>
        <span class="js-price-val">10</span>"#;
    assert!(crawler.get_product("https://101tea.ru/p", Some(no_amount), Payload::Absent).is_empty());
    assert!(crawler.get_product("https://101tea.ru/p", None, Payload::Absent).is_empty());
}

#[test]
fn gutenberg_reads_a_product_with_amount_and_units_in_one_text() {
    let document = r#"<html><body>
        <a class="breadcrumbs__link">Catalogue</a><a class="breadcrumbs__link">Oolong</a>
        <h1 id="pagetitle">Tie Guan Yin</h1>
        <div itemprop='description'> Light oolong </div>
        <span class="article__value">G-1</span>
        <span class="price_value">990</span>
        <span class="price_measure">/100 г</span>
        </body></html>"#;
    let crawler = WebstoreCrawlerGutenberg::new(5, 4);
    assert_eq!(crawler.landing_url(), "https://gutenberg.ru/");
    let products = crawler.get_product("https://gutenberg.ru/p/tgy", Some(document), Payload::Absent);
    assert_eq!(products.len(), 1);
    let product = &products[0];
    assert_eq!(product.crawler_id(), 4);
    assert_eq!(product.sku(), "G-1");
    assert_eq!(product.name(), "Tie Guan Yin");
    assert_eq!(product.price().to_text(), "990");
    assert_eq!(product.units().as_deref(), Some("г"));
    assert_eq!(product.amount().as_ref().map(|a| a.to_text()), Some("100".to_string()));
    assert_eq!(product.category().as_deref(), Some("Catalogue / Oolong"));
    assert_eq!(product.description().as_deref(), Some("Light oolong"));
}

#[test]
fn gutenberg_defaults_to_one_piece() {
    let document = r#"<h1 id="pagetitle">Cup</h1><span class="article__value">C-1</span>
        <span class="price_value">150,00</span>"#;
    let crawler = WebstoreCrawlerGutenberg::new(5, 4);
    let products = crawler.get_product("https://gutenberg.ru/p/cup", Some(document), Payload::Absent);
    assert_eq!(products.len(), 1);
    assert_eq!(products[0].units().as_deref(), Some("шт"));
    assert_eq!(products[0].amount().as_ref().map(|a| a.to_text()), Some("1".to_string()));
    assert_eq!(products[0].price().to_text(), "150");
    assert_eq!(*products[0].category(), None);
}

#[test]
fn gutenberg_reads_listing_pages() {
    let document = r#"<ul class="menu-type-1"><li><a href="/catalog/tea/">Tea</a></li></ul>
        <div class="module-pagination"><div class="nums"><a>1</a><a>2</a></div></div>
        <div class="item-title"><a href="/catalog/tea/1/">One</a></div>"#;
    let crawler = WebstoreCrawlerGutenberg::new(5, 4);
    assert_eq!(
        crawler.get_category_links(Some(document)),
        vec!["https://gutenberg.ru/catalog/tea/".to_string()]
    );
    assert_eq!(
        crawler.get_page_links("https://gutenberg.ru/catalog/tea/", Some(document)),
        vec![
            "https://gutenberg.ru/catalog/tea/".to_string(),
            "https://gutenberg.ru/catalog/tea/?page=2".to_string(),
        ]
    );
    assert_eq!(
        crawler.get_product_links(Some(document)),
        vec!["https://gutenberg.ru/catalog/tea/1/".to_string()]
    );
}

const VARIANT_PAGE: &str = r#"<html><body>
    <ul class="breadcrumb"><li><a>Shop</a></li><li><a>Tea</a></li></ul>
    <h1 class="product__title">Assam</h1>
    <div class="product__short-description">Strong</div>
    <form class="product" data-product-json="{&quot;variants&quot;:[{&quot;sku&quot;:&quot;A-50&quot;}]}"></form>
    </body></html>"#;

fn variant(sku: &str, price: &str, weight: Option<&str>) -> Variant {
    Variant {
        sku: sku.to_string(),
        price: price.to_string(),
        weight: weight.map(|w| w.to_string()),
    }
}

#[test]
fn rusteaco_hands_out_the_decoded_variant_list() {
    let crawler = WebstoreCrawlerRusteaco::new(5, 9);
    assert_eq!(crawler.landing_url(), "https://shop.rusteaco.ru/");
    assert_eq!(
        crawler.get_product_payload(Some(VARIANT_PAGE)),
        Some(r#"{"variants":[{"sku":"A-50"}]}"#.to_string())
    );
    assert_eq!(crawler.get_product_payload(Some("<form class=product></form>")), None);
    assert_eq!(crawler.get_product_payload(Some("<p></p>")), None);
    assert_eq!(crawler.get_product_payload(None), None);
}

#[test]
fn rusteaco_gives_one_product_for_each_valid_variant() {
    let crawler = WebstoreCrawlerRusteaco::new(5, 9);
    let variants = vec![
        variant("A-50", "350", Some("0,05")),
        variant("A-0", "0", Some("0,1")),
        variant("A-100", "600,50", None),
        variant("", "10", None),
    ];
    let products = crawler.get_product(
        "https://shop.rusteaco.ru/product/assam",
        Some(VARIANT_PAGE),
        Payload::Variants(variants),
    );
    assert_eq!(products.len(), 2);
    assert_eq!(products[0].sku(), "A-50");
    assert_eq!(products[0].url(), "https://shop.rusteaco.ru/product/assam#A-50");
    assert_eq!(products[0].name(), "Assam");
    assert_eq!(products[0].category().as_deref(), Some("Shop / Tea"));
    assert_eq!(products[0].description().as_deref(), Some("Strong"));
    assert_eq!(products[0].units().as_deref(), Some("кг"));
    assert_eq!(products[0].amount().as_ref().map(|a| a.to_text()), Some("0.05".to_string()));
    assert_eq!(products[0].price().to_text(), "350");
    assert_eq!(products[1].sku(), "A-100");
    assert_eq!(products[1].url(), "https://shop.rusteaco.ru/product/assam#A-100");
    assert_eq!(products[1].units().as_deref(), Some("шт"));
    assert_eq!(products[1].price().to_text(), "600.5");
}

#[test]
fn rusteaco_gives_nothing_without_form_or_readable_list() {
    let crawler = WebstoreCrawlerRusteaco::new(5, 9);
    let url = "https://shop.rusteaco.ru/product/assam";
    assert!(crawler.get_product(url, Some(VARIANT_PAGE), Payload::Unreadable).is_empty());
    assert!(crawler.get_product(url, Some(VARIANT_PAGE), Payload::Absent).is_empty());
    assert!(crawler
        .get_product(url, Some("<h1 class=product__title>x</h1>"), Payload::Variants(vec![variant("s", "1", None)]))
        .is_empty());
    assert!(crawler.get_product(url, None, Payload::Variants(vec![variant("s", "1", None)])).is_empty());
    // A page without a variant list states no price: its record is rejected.
    let plain = r#"<h1 class="product__title">x</h1><form class="product"></form>
        <span class="sku-value">P-1</span>"#;
    assert!(crawler.get_product(url, Some(plain), Payload::Absent).is_empty());
}

#[test]
fn rusteaco_reads_listing_pages() {
    let document = r#"<a class="header__collections-link" href="/collection/tea">Tea</a>
        <div class="pagination-items"><a class="pagination-link">1</a><a class="pagination-link">3</a></div>
        <div class="product-preview__title"><a href="/product/assam">Assam</a></div>"#;
    let crawler = WebstoreCrawlerRusteaco::new(5, 9);
    assert_eq!(
        crawler.get_category_links(Some(document)),
        vec!["https://shop.rusteaco.ru/collection/tea".to_string()]
    );
    assert_eq!(
        crawler.get_page_links("https://shop.rusteaco.ru/collection/tea?page=1", Some(document)),
        vec![
            "https://shop.rusteaco.ru/collection/tea?page=1".to_string(),
            "https://shop.rusteaco.ru/collection/tea?page=2".to_string(),
            "https://shop.rusteaco.ru/collection/tea?page=3".to_string(),
        ]
    );
    assert_eq!(
        crawler.get_product_links(Some(document)),
        vec!["https://shop.rusteaco.ru/product/assam".to_string()]
    );
}

#[test]
fn links_of_a_stage_are_kept_once() {
    let found = vec![
        vec!["b".to_string(), "a".to_string(), "b".to_string()],
        vec![],
        vec!["c".to_string(), "a".to_string()],
    ];
    assert_eq!(
        unique_links(&found),
        vec!["b".to_string(), "a".to_string(), "c".to_string()]
    );
    assert!(unique_links(&vec![]).is_empty());
}

#[test]
fn products_of_a_crawl_are_kept_once_and_the_last_wins() {
    let crawler = WebstoreCrawlerRusteaco::new(5, 9);
    let page = |url: &str, variants: Vec<Variant>| {
        crawler.get_product(url, Some(VARIANT_PAGE), Payload::Variants(variants))
    };
    let found = vec![
        page("https://x/p", vec![variant("s1", "10", None), variant("s2", "20", None)]),
        vec![],
        page("https://x/p#s1", vec![variant("s1", "11", None)]),
        page("https://x/q", vec![variant("s1", "30", None)]),
    ];
    let products = unique_products(&found);
    let summary: Vec<(String, String)> = products
        .iter()
        .map(|p| (p.url().clone(), p.price().to_text()))
        .collect();
    assert_eq!(
        summary,
        vec![
            ("https://x/p#s2".to_string(), "20".to_string()),
            ("https://x/p#s1".to_string(), "11".to_string()),
            ("https://x/q#s1".to_string(), "30".to_string()),
        ]
    );
}

#[test]
fn variants_with_distinct_skus_all_stay() {
    let crawler = WebstoreCrawlerRusteaco::new(5, 9);
    let variants = vec![variant("s1", "1", None), variant("s2", "1", None), variant("s3", "1", None)];
    let found = vec![crawler.get_product("https://x/u", Some(VARIANT_PAGE), Payload::Variants(variants))];
    let urls: Vec<String> = unique_products(&found).iter().map(|p| p.url().clone()).collect();
    assert_eq!(
        urls,
        vec!["https://x/u#s1".to_string(), "https://x/u#s2".to_string(), "https://x/u#s3".to_string()]
    );
}

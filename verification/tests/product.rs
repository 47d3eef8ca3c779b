use pushkind_crawlers::number::Decimal;
use pushkind_crawlers::product::{
    build_product, is_blank, make_variant_url, variant_to_product, RawProduct, Variant,
};

fn number(text: &str) -> f64 {
    text.parse::<f64>().unwrap()
}

fn dummy_product_fields() -> (&'static str, &'static str, &'static str, &'static str) {
    ("Name", "Category", "Description", "http://example.com")
}

#[test]
fn converts_weight_to_kg() {
    let variant = Variant {
        sku: "S1".into(),
        price: "10,5".into(),
        weight: Some("0,5".into()),
    };
    let (name, category, description, url) = dummy_product_fields();
    let product = variant_to_product(variant, name, category, description, url, 1);
    assert_eq!(product.units.as_deref(), Some("кг"));
    assert!((number(&product.amount.unwrap().to_text()) - 0.5).abs() < f64::EPSILON);
    assert!((number(&product.price.to_text()) - 10.5).abs() < f64::EPSILON);
}

#[test]
fn defaults_to_pieces_when_weight_missing() {
    let variant = Variant {
        sku: "S2".into(),
        price: "20".into(),
        weight: None,
    };
    let (name, category, description, url) = dummy_product_fields();
    let product = variant_to_product(variant, name, category, description, url, 1);
    assert_eq!(product.units.as_deref(), Some("шт"));
    assert!((number(&product.amount.unwrap().to_text()) - 1.0).abs() < f64::EPSILON);
}

#[test]
fn defaults_to_pieces_when_weight_invalid() {
    let variant = Variant {
        sku: "S3".into(),
        price: "15".into(),
        weight: Some("abc".into()),
    };
    let (name, category, description, url) = dummy_product_fields();
    let product = variant_to_product(variant, name, category, description, url, 1);
    assert_eq!(product.units.as_deref(), Some("шт"));
    assert!((number(&product.amount.unwrap().to_text()) - 1.0).abs() < f64::EPSILON);
}

#[test]
fn variant_keeps_page_fields_and_gets_its_own_address() {
    let variant = Variant {
        sku: "S1".into(),
        price: "oops".into(),
        weight: None,
    };
    let product = variant_to_product(variant, "Tea", "Green", "Fine", "https://x/p?a=1", 7);
    assert_eq!(product.sku, "S1");
    assert_eq!(product.name, "Tea");
    assert_eq!(product.category.as_deref(), Some("Green"));
    assert_eq!(product.description.as_deref(), Some("Fine"));
    assert_eq!(product.url, "https://x/p?a=1#S1");
    assert_eq!(product.price.to_text(), "0");
    assert!(product.images.is_empty());
}

#[test]
fn variant_urls_differ_by_sku_and_are_stable() {
    let first = make_variant_url("https://x/p", "s1");
    let second = make_variant_url("https://x/p", "s2");
    assert_eq!(first, "https://x/p#s1");
    assert_eq!(second, "https://x/p#s2");
    assert_ne!(first, second);
    assert_eq!(make_variant_url(&first, "s2"), second);
    assert_eq!(make_variant_url("https://x/p#old#older", "s1"), first);
}

fn raw(sku: &str, name: &str, price: &str, amount: Option<&str>, url: &str) -> RawProduct {
    RawProduct {
        sku: sku.to_string(),
        name: name.to_string(),
        price: Decimal::parse(price).unwrap_or(Decimal::zero()),
        category: Some("  Tea / Green ".to_string()),
        units: Some("   ".to_string()),
        amount: amount.map(|a| Decimal::parse(a).unwrap_or(Decimal::zero())),
        description: None,
        url: url.to_string(),
        images: vec!["https://x/i.png".to_string()],
    }
}

#[test]
fn build_product_normalizes_a_valid_record() {
    let product = build_product(3, raw("SKU", "Name", "10,50", Some("0.5"), "https://x/p"))
        .expect("valid record");
    assert_eq!(product.crawler_id(), 3);
    assert_eq!(product.sku(), "SKU");
    assert_eq!(product.name(), "Name");
    assert_eq!(product.url(), "https://x/p");
    assert_eq!(product.price().to_text(), "10.5");
    assert_eq!(product.amount().as_ref().map(|a| a.to_text()), Some("0.5".to_string()));
    assert_eq!(product.category().as_deref(), Some("Tea / Green"));
    assert_eq!(*product.units(), None);
    assert_eq!(*product.description(), None);
    assert_eq!(product.images(), &vec!["https://x/i.png".to_string()]);
    let copy = product.copy();
    assert_eq!(copy.sku(), product.sku());
    assert_eq!(copy.url(), product.url());
    assert_eq!(copy.price().to_text(), "10.5");
}

#[test]
fn build_product_keeps_identifiers_as_they_were_read() {
    let product = build_product(3, raw(" S K U ", " Name ", "1", None, " https://x/p#a "))
        .expect("valid record");
    assert_eq!(product.sku(), " S K U ");
    assert_eq!(product.name(), " Name ");
    assert_eq!(product.url(), " https://x/p#a ");
}

#[test]
fn blank_texts_are_told_from_others() {
    assert!(is_blank(""));
    assert!(is_blank(" \t\u{a0}\n"));
    assert!(!is_blank(" a "));
}

#[test]
fn build_product_accepts_a_missing_amount() {
    assert!(build_product(1, raw("S", "N", "1", None, "u")).is_some());
}

#[test]
fn build_product_rejects_empty_identifiers() {
    assert!(build_product(1, raw("", "N", "1", Some("1"), "u")).is_none());
    assert!(build_product(1, raw("   ", "N", "1", Some("1"), "u")).is_none());
    assert!(build_product(1, raw("S", "", "1", Some("1"), "u")).is_none());
    assert!(build_product(1, raw("S", "N", "1", Some("1"), "")).is_none());
    assert!(build_product(1, raw("S", "N", "1", Some("1"), " \t\n")).is_none());
}

#[test]
fn build_product_rejects_prices_that_are_not_positive() {
    assert!(build_product(1, raw("S", "N", "0", Some("1"), "u")).is_none());
    assert!(build_product(1, raw("S", "N", "-3", Some("1"), "u")).is_none());
    assert!(build_product(1, raw("S", "N", "NaN", Some("1"), "u")).is_none());
    assert!(build_product(1, raw("S", "N", "inf", Some("1"), "u")).is_none());
    assert!(build_product(1, raw("S", "N", "", Some("1"), "u")).is_none());
}

#[test]
fn build_product_rejects_amounts_that_are_not_positive() {
    assert!(build_product(1, raw("S", "N", "1", Some("0"), "u")).is_none());
    assert!(build_product(1, raw("S", "N", "1", Some("-0.5"), "u")).is_none());
    assert!(build_product(1, raw("S", "N", "1", Some("abc"), "u")).is_none());
}

use pushkind_crawlers::number::Decimal;
use pushkind_crawlers::product::{build_product, Product, RawProduct};
use pushkind_crawlers::repository::images::{images_of, replace_product_images, ImageRow};
use pushkind_crawlers::repository::memory::MemoryRepository;
use pushkind_crawlers::repository::model::{FlagRow, LinkRow};
use pushkind_crawlers::types::{CategoryAssignmentSource, HubId};

fn product(crawler_id: i32, url: &str, name: &str, price: &str) -> Product {
    build_product(
        crawler_id,
        RawProduct {
            sku: format!("sku-{name}"),
            name: name.to_string(),
            price: Decimal::parse(price).expect("a number"),
            category: None,
            units: Some("шт".to_string()),
            amount: Some(Decimal::one()),
            description: None,
            url: url.to_string(),
            images: vec![],
        },
    )
    .expect("a valid product")
}

/// The rows of a crawler as (id, url, name, price, updated_at).
fn rows(store: &MemoryRepository, crawler_id: i32) -> Vec<(i32, String, String, String, i64)> {
    store
        .products()
        .iter()
        .filter(|r| r.product.crawler_id() == crawler_id)
        .map(|r| {
            (
                r.id,
                r.product.url().clone(),
                r.product.name().clone(),
                r.product.price().to_text(),
                r.updated_at,
            )
        })
        .collect()
}

fn store_with_three_products() -> MemoryRepository {
    let mut store = MemoryRepository::new();
    let created = store
        .create_products(
            &vec![
                product(1, "https://x/p1", "p1", "10"),
                product(1, "https://x/p2", "p2", "20"),
                product(1, "https://x/p3", "p3", "30"),
                product(2, "https://x/p1", "other", "40"),
            ],
            100,
        )
        .expect("new products");
    assert_eq!(created, 4);
    store.set_benchmark_association(50, 1, 10_000_000);
    store.set_benchmark_association(50, 2, 20_000_000);
    store.set_benchmark_association(51, 3, 30_000_000);
    store.set_benchmark_association(51, 4, 40_000_000);
    store
}

#[test]
fn full_replacement_leaves_exactly_the_new_products() {
    let mut store = store_with_three_products();
    assert_eq!(store.delete_products(1), 3);
    assert_eq!(
        store.links(),
        &vec![LinkRow { benchmark_id: 51, product_id: 4, distance: 40_000_000 }]
    );
    let created = store
        .create_products(
            &vec![product(1, "https://x/p2", "p2 new", "21"), product(1, "https://x/p4", "p4", "41")],
            200,
        )
        .expect("new products");
    assert_eq!(created, 2);
    assert_eq!(
        rows(&store, 1),
        vec![
            (5, "https://x/p2".to_string(), "p2 new".to_string(), "21".to_string(), 200),
            (6, "https://x/p4".to_string(), "p4".to_string(), "41".to_string(), 200),
        ]
    );
    assert_eq!(
        rows(&store, 2),
        vec![(4, "https://x/p1".to_string(), "other".to_string(), "40".to_string(), 100)]
    );
}

#[test]
fn patch_touches_only_the_products_it_names() {
    let mut store = store_with_three_products();
    let updated = store
        .update_products(&vec![product(1, "https://x/p1", "p1 new", "11")], 200)
        .expect("an upsert");
    assert_eq!(updated, 1);
    assert_eq!(
        rows(&store, 1),
        vec![
            (1, "https://x/p1".to_string(), "p1 new".to_string(), "11".to_string(), 200),
            (2, "https://x/p2".to_string(), "p2".to_string(), "20".to_string(), 100),
            (3, "https://x/p3".to_string(), "p3".to_string(), "30".to_string(), 100),
        ]
    );
    assert_eq!(
        rows(&store, 2),
        vec![(4, "https://x/p1".to_string(), "other".to_string(), "40".to_string(), 100)]
    );
    assert_eq!(store.links().len(), 4);
}

#[test]
fn stored_products_are_read_one_by_one() {
    let store = store_with_three_products();
    assert_eq!(store.product_count(), 4);
    let row = store.product_row(2);
    assert_eq!(row.id, 3);
    assert_eq!(row.product.url(), "https://x/p3");
    assert!(row.product.price().is_positive());
    assert_eq!(row.category_assignment_source, CategoryAssignmentSource::Automatic);
    assert_eq!(row.embedding, None);
}

#[test]
fn patch_inserts_what_is_new() {
    let mut store = store_with_three_products();
    store
        .update_products(
            &vec![product(1, "https://x/p9", "p9", "90"), product(3, "https://x/p1", "third", "1")],
            300,
        )
        .expect("an upsert");
    assert_eq!(rows(&store, 1).len(), 4);
    assert_eq!(
        rows(&store, 1)[3],
        (5, "https://x/p9".to_string(), "p9".to_string(), "90".to_string(), 300)
    );
    assert_eq!(
        rows(&store, 3),
        vec![(6, "https://x/p1".to_string(), "third".to_string(), "1".to_string(), 300)]
    );
}

#[test]
fn upsert_twice_is_upsert_once() {
    let batch = || {
        vec![
            product(1, "https://x/p1", "first", "11"),
            product(1, "https://x/p7", "p7", "70"),
            product(1, "https://x/p1", "last", "12"),
        ]
    };
    let mut once = store_with_three_products();
    once.update_products(&batch(), 200).expect("an upsert");
    let mut twice = store_with_three_products();
    twice.update_products(&batch(), 200).expect("an upsert");
    twice.update_products(&batch(), 250).expect("an upsert");

    let strip = |rows: Vec<(i32, String, String, String, i64)>| -> Vec<(i32, String, String, String)> {
        rows.into_iter().map(|(id, url, name, price, _)| (id, url, name, price)).collect()
    };
    assert_eq!(strip(rows(&once, 1)), strip(rows(&twice, 1)));
    assert_eq!(rows(&once, 1)[0].2, "last");
    assert_eq!(rows(&once, 1).len(), 4);
    for (a, b) in rows(&once, 1).iter().zip(rows(&twice, 1).iter()) {
        assert!(a.4 <= b.4);
    }
    assert_eq!(rows(&twice, 1)[1].4, 100);
    assert_eq!(rows(&twice, 1)[0].4, 250);
}

#[test]
fn writers_give_the_number_of_rows_they_changed() {
    let mut store = store_with_three_products();
    store.add_crawler(flag(1, 7, false));
    store.add_crawler(flag(2, 7, false));
    store.add_crawler(flag(2, 8, false));
    store.add_benchmark(flag(50, 7, false));
    assert_eq!(store.set_crawler_processing(2, true), 2);
    assert_eq!(store.set_crawler_processing(9, true), 0);
    assert_eq!(store.set_benchmark_processing(50, true), 1);
    assert_eq!(store.update_crawler_stats(2, 10), 2);
    assert_eq!(store.update_crawler_stats(9, 10), 0);
    assert_eq!(store.update_benchmark_stats(50, 10), 1);
    assert_eq!(store.update_benchmark_stats(51, 10), 0);
    assert_eq!(store.set_product_category_manual(3, Some(1), 10), 1);
    assert_eq!(store.set_product_category_manual(30, Some(1), 10), 0);
    assert_eq!(store.set_product_category_automatic(3, None, 10), 0);
    assert_eq!(store.set_product_category_automatic(4, None, 10), 1);
}

#[test]
fn upsert_keeps_identity_vector_and_category() {
    let mut store = store_with_three_products();
    assert_eq!(store.set_product_category_manual(2, Some(8), 150), 1);
    store
        .update_products(&vec![product(1, "https://x/p2", "p2 new", "22")], 200)
        .expect("an upsert");
    let row = &store.products()[1];
    assert_eq!(row.id, 2);
    assert_eq!(row.category_id, Some(8));
    assert_eq!(row.category_assignment_source, CategoryAssignmentSource::Manual);
    assert_eq!(row.product.name(), "p2 new");
    assert_eq!(row.updated_at, 200);
}

#[test]
fn create_refuses_a_product_that_exists_or_repeats() {
    let mut store = store_with_three_products();
    assert!(store
        .create_products(&vec![product(1, "https://x/new", "n", "1"), product(1, "https://x/p1", "again", "1")], 200)
        .is_err());
    assert!(store
        .create_products(&vec![product(5, "https://x/a", "a", "1"), product(5, "https://x/a", "b", "1")], 200)
        .is_err());
    assert_eq!(store.products().len(), 4);
    assert_eq!(store.create_products(&vec![], 200).expect("nothing to do"), 0);
}

#[test]
fn automatic_assignment_leaves_manual_ones() {
    let mut store = store_with_three_products();
    assert_eq!(store.set_product_category_manual(1, Some(7), 110), 1);
    assert_eq!(store.set_product_category_automatic(1, Some(9), 120), 0);
    assert_eq!(store.set_product_category_automatic(1, None, 130), 0);
    assert_eq!(store.set_product_category_automatic(2, Some(9), 140), 1);
    assert_eq!(store.set_product_category_automatic(3, None, 150), 1);
    assert_eq!(store.set_product_category_automatic(77, Some(9), 160), 0);
    let state: Vec<(Option<i32>, CategoryAssignmentSource, i64)> = store
        .products()
        .iter()
        .map(|r| (r.category_id, r.category_assignment_source, r.updated_at))
        .collect();
    assert_eq!(
        state,
        vec![
            (Some(7), CategoryAssignmentSource::Manual, 110),
            (Some(9), CategoryAssignmentSource::Automatic, 140),
            (None, CategoryAssignmentSource::Automatic, 150),
            (None, CategoryAssignmentSource::Automatic, 100),
        ]
    );
}

fn flag(id: i32, hub_id: i32, processing: bool) -> FlagRow {
    FlagRow { id, hub_id, processing, num_products: 0, updated_at: 0 }
}

fn store_with_two_tenants() -> MemoryRepository {
    let mut store = MemoryRepository::new();
    store.add_crawler(flag(1, 7, false));
    store.add_crawler(flag(2, 7, false));
    store.add_crawler(flag(3, 8, false));
    store.add_benchmark(flag(1, 7, false));
    store.add_benchmark(flag(2, 8, false));
    store
}

#[test]
fn of_two_claims_one_is_granted() {
    let mut store = store_with_two_tenants();
    let seven = HubId::new(7).expect("valid hub id");
    let eight = HubId::new(8).expect("valid hub id");
    assert!(!store.has_any_processing_in_hub(seven));
    assert!(store.claim_hub_processing_lock(seven));
    assert!(store.has_any_processing_in_hub(seven));
    assert!(!store.claim_hub_processing_lock(seven));
    assert_eq!(
        store.crawlers(),
        &vec![
            flag(1, 7, true),
            flag(2, 7, true),
            flag(3, 8, false),
        ]
    );
    assert_eq!(
        store.benchmarks(),
        &vec![
            flag(1, 7, true),
            flag(2, 8, false),
        ]
    );
    // The other tenant is not held up.
    assert!(!store.has_any_processing_in_hub(eight));
    assert!(store.claim_hub_processing_lock(eight));
    store.release_hub_processing_lock(seven);
    assert!(!store.has_any_processing_in_hub(seven));
    assert!(store.has_any_processing_in_hub(eight));
    assert!(store.claim_hub_processing_lock(seven));
}

#[test]
fn claim_is_refused_while_one_benchmark_runs() {
    let mut store = MemoryRepository::new();
    store.add_crawler(flag(1, 7, false));
    store.add_benchmark(flag(1, 7, true));
    let seven = HubId::new(7).expect("valid hub id");
    assert!(!store.claim_hub_processing_lock(seven));
    assert_eq!(store.crawlers(), &vec![flag(1, 7, false)]);
}

#[test]
fn links_of_a_benchmark_are_replaced_as_a_set() {
    let mut store = store_with_three_products();
    assert_eq!(store.remove_benchmark_associations(50), 2);
    assert_eq!(store.remove_benchmark_associations(50), 0);
    store.set_benchmark_association(50, 3, 5);
    assert_eq!(
        store.links(),
        &vec![
            LinkRow { benchmark_id: 51, product_id: 3, distance: 30_000_000 },
            LinkRow { benchmark_id: 51, product_id: 4, distance: 40_000_000 },
            LinkRow { benchmark_id: 50, product_id: 3, distance: 5 },
        ]
    );
}

#[test]
fn images_are_grouped_by_product_and_replaced_as_a_whole() {
    let rows = vec![
        ImageRow { product_id: 1, url: "a".to_string() },
        ImageRow { product_id: 2, url: "b".to_string() },
        ImageRow { product_id: 1, url: "c".to_string() },
    ];
    assert_eq!(images_of(&rows, 1), vec!["a".to_string(), "c".to_string()]);
    assert_eq!(images_of(&rows, 2), vec!["b".to_string()]);
    assert!(images_of(&rows, 3).is_empty());
    let replaced = replace_product_images(4, &vec!["x".to_string(), "y".to_string()]);
    assert_eq!(replaced.len(), 2);
    assert_eq!((replaced[1].product_id, replaced[1].url.as_str()), (4, "y"));
    assert_eq!(images_of(&replaced, 4), vec!["x".to_string(), "y".to_string()]);
    assert!(replace_product_images(4, &vec![]).is_empty());
}

#[test]
fn statistics_count_and_take_the_mark_back() {
    let mut store = store_with_three_products();
    store.add_crawler(flag(1, 7, false));
    store.add_crawler(flag(2, 7, false));
    store.add_benchmark(flag(50, 7, false));
    assert_eq!(store.set_crawler_processing(1, true), 1);
    assert_eq!(store.set_benchmark_processing(50, true), 1);
    assert_eq!(store.set_benchmark_processing(99, true), 0);
    assert!(store.has_any_processing_in_hub(HubId::new(7).expect("valid hub id")));
    assert_eq!(store.update_crawler_stats(1, 500), 1);
    assert_eq!(store.update_benchmark_stats(50, 600), 1);
    assert_eq!(
        store.crawlers(),
        &vec![
            FlagRow { id: 1, hub_id: 7, processing: false, num_products: 3, updated_at: 500 },
            flag(2, 7, false),
        ]
    );
    assert_eq!(
        store.benchmarks(),
        &vec![FlagRow { id: 50, hub_id: 7, processing: false, num_products: 2, updated_at: 600 }]
    );
    assert!(!store.has_any_processing_in_hub(HubId::new(7).expect("valid hub id")));
    // Deleting a crawler's products takes links away; the benchmark's count
    // stays until its statistics are updated again.
    store.delete_products(1);
    assert_eq!(store.benchmarks()[0].num_products, 2);
    store.update_benchmark_stats(50, 700);
    assert_eq!(store.benchmarks()[0].num_products, 0);
}

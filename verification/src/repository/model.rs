//! The tables of the store and what each operation makes of them.

use vstd::prelude::*;
use crate::product::ProductView;
use crate::types::CategoryAssignmentSource;

verus! {

/// A crawler or a benchmark, as far as the jobs read and write it.
#[derive(Clone, Copy, Debug, PartialEq, Eq)]
pub struct FlagRow {
    pub id: i32,
    pub hub_id: i32,
    /// Whether a job is working on it.
    pub processing: bool,
    /// For a crawler the number of its products, for a benchmark the number
    /// of its links, as of the last update of its statistics.
    pub num_products: i32,
    /// The time of the last update of its statistics.
    pub updated_at: i64,
}

/// A link between a benchmark and a product.
#[derive(Clone, Copy, Debug, PartialEq, Eq)]
pub struct LinkRow {
    pub benchmark_id: i32,
    pub product_id: i32,
    /// The cosine distance, in billionths.
    pub distance: u32,
}

/// A stored product as mathematical values.
pub struct ProductRowView {
    pub id: i32,
    pub product: ProductView,
    pub embedding: Option<Seq<u8>>,
    pub category_id: Option<i32>,
    pub category_assignment_source: CategoryAssignmentSource,
    pub updated_at: i64,
}

/// The products of the store and the identity that the next new product
/// gets.
pub struct ProductTable {
    pub rows: Seq<ProductRowView>,
    pub next_id: int,
}

/// Whether a row is kept under the natural key `(crawler_id, url)`.
pub open spec fn has_key(row: ProductRowView, crawler_id: i32, url: Seq<char>) -> bool {
    row.product.crawler_id == crawler_id && row.product.url == url
}

/// Whether no two rows have the same natural key.
pub open spec fn unique_keys(rows: Seq<ProductRowView>) -> bool {
    forall|a: int, b: int|
        0 <= a < b < rows.len() ==> !has_key(
            #[trigger] rows[a],
            (#[trigger] rows[b]).product.crawler_id,
            rows[b].product.url,
        )
}

/// Whether no two rows have the same identity.
pub open spec fn unique_ids(rows: Seq<ProductRowView>) -> bool {
    forall|a: int, b: int|
        0 <= a < b < rows.len() ==> (#[trigger] rows[a]).id != (#[trigger] rows[b]).id
}

/// Whether every identity in use is below the one that the next new
/// product gets.
pub open spec fn ids_below(t: ProductTable) -> bool {
    forall|i: int| 0 <= i < t.rows.len() ==> (#[trigger] t.rows[i]).id < t.next_id
}

/// The first index at or after `i` of a row with the given key; the number
/// of rows where there is none.
pub open spec fn find(rows: Seq<ProductRowView>, crawler_id: i32, url: Seq<char>, i: int) -> int
    decreases rows.len() - i,
{
    if 0 <= i < rows.len() && !has_key(rows[i], crawler_id, url) {
        find(rows, crawler_id, url, i + 1)
    } else {
        i
    }
}

/// The row that a new product gets.
pub open spec fn new_row(id: int, p: ProductView, now: i64) -> ProductRowView {
    ProductRowView {
        id: id as i32,
        product: p,
        embedding: None,
        category_id: None,
        category_assignment_source: CategoryAssignmentSource::Automatic,
        updated_at: now,
    }
}

/// A row whose fields are written over by `p` at the time `now`; its
/// identity, its vector and its category stay.
pub open spec fn overwritten_row(row: ProductRowView, p: ProductView, now: i64) -> ProductRowView {
    ProductRowView { product: p, updated_at: now, ..row }
}

/// The table after `p` was inserted as a new row.
pub open spec fn inserted(t: ProductTable, p: ProductView, now: i64) -> ProductTable {
    ProductTable { rows: t.rows.push(new_row(t.next_id, p, now)), next_id: t.next_id + 1 }
}

/// The table after `p` was upserted: written over the row with its key
/// where there is one, inserted otherwise.
pub open spec fn upserted(t: ProductTable, p: ProductView, now: i64) -> ProductTable {
    let i = find(t.rows, p.crawler_id, p.url, 0);
    if 0 <= i < t.rows.len() {
        ProductTable { rows: t.rows.update(i, overwritten_row(t.rows[i], p, now)), ..t }
    } else {
        inserted(t, p, now)
    }
}

/// The table after the first `k` of `products` were inserted, in order.
pub open spec fn inserted_all(
    t: ProductTable,
    products: Seq<ProductView>,
    now: i64,
    k: int,
) -> ProductTable
    decreases k,
{
    if k <= 0 {
        t
    } else {
        inserted(inserted_all(t, products, now, k - 1), products[k - 1], now)
    }
}

/// The table after the first `k` of `products` were upserted, in order.
pub open spec fn upserted_all(
    t: ProductTable,
    products: Seq<ProductView>,
    now: i64,
    k: int,
) -> ProductTable
    decreases k,
{
    if k <= 0 {
        t
    } else {
        upserted(upserted_all(t, products, now, k - 1), products[k - 1], now)
    }
}

/// The first `k` rows without those of the crawler `crawler_id`.
pub open spec fn without_crawler(rows: Seq<ProductRowView>, crawler_id: i32, k: int) -> Seq<
    ProductRowView,
>
    decreases k,
{
    if k <= 0 {
        Seq::empty()
    } else if rows[k - 1].product.crawler_id == crawler_id {
        without_crawler(rows, crawler_id, k - 1)
    } else {
        without_crawler(rows, crawler_id, k - 1).push(rows[k - 1])
    }
}

/// Whether the product with the identity `id` belongs to the crawler.
pub open spec fn owned_by(rows: Seq<ProductRowView>, crawler_id: i32, id: i32) -> bool {
    exists|i: int|
        0 <= i < rows.len() && (#[trigger] rows[i]).id == id && rows[i].product.crawler_id
            == crawler_id
}

/// The first `k` links without those to products of the crawler.
pub open spec fn without_links_to(
    links: Seq<LinkRow>,
    rows: Seq<ProductRowView>,
    crawler_id: i32,
    k: int,
) -> Seq<LinkRow>
    decreases k,
{
    if k <= 0 {
        Seq::empty()
    } else if owned_by(rows, crawler_id, links[k - 1].product_id) {
        without_links_to(links, rows, crawler_id, k - 1)
    } else {
        without_links_to(links, rows, crawler_id, k - 1).push(links[k - 1])
    }
}

/// The first `k` links without those of the benchmark.
pub open spec fn without_benchmark(links: Seq<LinkRow>, benchmark_id: i32, k: int) -> Seq<LinkRow>
    decreases k,
{
    if k <= 0 {
        Seq::empty()
    } else if links[k - 1].benchmark_id == benchmark_id {
        without_benchmark(links, benchmark_id, k - 1)
    } else {
        without_benchmark(links, benchmark_id, k - 1).push(links[k - 1])
    }
}

/// A row after an automatic assignment of `category` to the product
/// `product_id`: a row of another product, and a row whose category was set
/// by an operator, stay as they are.
pub open spec fn assigned_row(
    row: ProductRowView,
    product_id: i32,
    category: Option<i32>,
    now: i64,
) -> ProductRowView {
    if row.id == product_id && row.category_assignment_source
        != CategoryAssignmentSource::Manual {
        ProductRowView {
            category_id: category,
            category_assignment_source: CategoryAssignmentSource::Automatic,
            updated_at: now,
            ..row
        }
    } else {
        row
    }
}

/// The rows after an automatic assignment of `category` to the product
/// `product_id`.
pub open spec fn assigned(
    rows: Seq<ProductRowView>,
    product_id: i32,
    category: Option<i32>,
    now: i64,
) -> Seq<ProductRowView> {
    Seq::new(rows.len(), |i: int| assigned_row(rows[i], product_id, category, now))
}

/// Whether a row of the tenant is marked as processing.
pub open spec fn active(rows: Seq<FlagRow>, hub_id: i32) -> bool {
    exists|i: int|
        0 <= i < rows.len() && (#[trigger] rows[i]).hub_id == hub_id && rows[i].processing
}

/// Whether the tenant has a row.
pub open spec fn present(rows: Seq<FlagRow>, hub_id: i32) -> bool {
    exists|i: int| 0 <= i < rows.len() && (#[trigger] rows[i]).hub_id == hub_id
}

/// The rows with those of the tenant marked as `processing`.
pub open spec fn marked(rows: Seq<FlagRow>, hub_id: i32, processing: bool) -> Seq<FlagRow> {
    Seq::new(
        rows.len(),
        |i: int|
            if rows[i].hub_id == hub_id {
                FlagRow { processing, ..rows[i] }
            } else {
                rows[i]
            },
    )
}

/// The rows with the one that has the identity `id` marked as
/// `processing`.
pub open spec fn marked_one(rows: Seq<FlagRow>, id: i32, processing: bool) -> Seq<FlagRow> {
    Seq::new(
        rows.len(),
        |i: int|
            if rows[i].id == id {
                FlagRow { processing, ..rows[i] }
            } else {
                rows[i]
            },
    )
}

/// The number of the first `k` rows that have the identity `id`.
pub open spec fn rows_with_id(rows: Seq<FlagRow>, id: i32, k: int) -> int
    decreases k,
{
    if k <= 0 {
        0
    } else if rows[k - 1].id == id {
        rows_with_id(rows, id, k - 1) + 1
    } else {
        rows_with_id(rows, id, k - 1)
    }
}

/// The number of the first `k` rows that belong to the tenant.
pub open spec fn rows_of_hub(rows: Seq<FlagRow>, hub_id: i32, k: int) -> int
    decreases k,
{
    if k <= 0 {
        0
    } else if rows[k - 1].hub_id == hub_id {
        rows_of_hub(rows, hub_id, k - 1) + 1
    } else {
        rows_of_hub(rows, hub_id, k - 1)
    }
}

/// Whether an assignment to the product `product_id` writes the row: it is
/// a row of that product, and its category was not set by an operator
/// unless an operator assigns.
pub open spec fn assignable(row: ProductRowView, product_id: i32, by_operator: bool) -> bool {
    row.id == product_id && (by_operator || row.category_assignment_source
        != CategoryAssignmentSource::Manual)
}

/// Whether the product `product_id` is stored and its category was not set
/// by an operator.
pub open spec fn automatically_assignable(rows: Seq<ProductRowView>, product_id: i32) -> bool {
    exists|i: int|
        0 <= i < rows.len() && (#[trigger] rows[i]).id == product_id
            && rows[i].category_assignment_source != CategoryAssignmentSource::Manual
}

/// The number of the first `k` rows that an assignment to the product
/// `product_id` writes.
pub open spec fn rows_assigned(
    rows: Seq<ProductRowView>,
    product_id: i32,
    by_operator: bool,
    k: int,
) -> int
    decreases k,
{
    if k <= 0 {
        0
    } else if assignable(rows[k - 1], product_id, by_operator) {
        rows_assigned(rows, product_id, by_operator, k - 1) + 1
    } else {
        rows_assigned(rows, product_id, by_operator, k - 1)
    }
}

/// The number of the first `k` products that belong to the crawler.
pub open spec fn products_of_crawler(rows: Seq<ProductRowView>, crawler_id: i32, k: int) -> int
    decreases k,
{
    if k <= 0 {
        0
    } else if rows[k - 1].product.crawler_id == crawler_id {
        products_of_crawler(rows, crawler_id, k - 1) + 1
    } else {
        products_of_crawler(rows, crawler_id, k - 1)
    }
}

/// The number of the first `k` links that belong to the benchmark.
pub open spec fn links_of_benchmark(links: Seq<LinkRow>, benchmark_id: i32, k: int) -> int
    decreases k,
{
    if k <= 0 {
        0
    } else if links[k - 1].benchmark_id == benchmark_id {
        links_of_benchmark(links, benchmark_id, k - 1) + 1
    } else {
        links_of_benchmark(links, benchmark_id, k - 1)
    }
}

/// A count as the statistics hold it: the largest number that they can
/// hold, where the count is above it.
pub open spec fn stored_count(n: int) -> i32 {
    if n > i32::MAX {
        i32::MAX
    } else if n < 0 {
        0
    } else {
        n as i32
    }
}

/// The rows after the statistics of the one with the identity `id` were
/// updated: it holds the count and the time, and is no longer processing.
pub open spec fn with_stats(rows: Seq<FlagRow>, id: i32, count: i32, now: i64) -> Seq<FlagRow> {
    Seq::new(
        rows.len(),
        |i: int|
            if rows[i].id == id {
                FlagRow { processing: false, num_products: count, updated_at: now, ..rows[i] }
            } else {
                rows[i]
            },
    )
}

/// The crawlers and the benchmarks, as far as the processing lock reads
/// them.
pub struct LockTable {
    pub crawlers: Seq<FlagRow>,
    pub benchmarks: Seq<FlagRow>,
}

/// Whether a job of the tenant is running: a crawler or a benchmark of the
/// tenant is marked as processing.
pub open spec fn any_processing(t: LockTable, hub_id: i32) -> bool {
    active(t.crawlers, hub_id) || active(t.benchmarks, hub_id)
}

/// The claim of the tenant's processing lock: where no job of the tenant
/// is running, every crawler and every benchmark of the tenant is marked
/// and the claim is granted; otherwise nothing changes and it is refused.
pub open spec fn claimed(t: LockTable, hub_id: i32) -> (LockTable, bool) {
    if any_processing(t, hub_id) {
        (t, false)
    } else {
        (
            LockTable {
                crawlers: marked(t.crawlers, hub_id, true),
                benchmarks: marked(t.benchmarks, hub_id, true),
            },
            true,
        )
    }
}

/// The release of the tenant's processing lock: no crawler and no
/// benchmark of the tenant is marked.
pub open spec fn released(t: LockTable, hub_id: i32) -> LockTable {
    LockTable {
        crawlers: marked(t.crawlers, hub_id, false),
        benchmarks: marked(t.benchmarks, hub_id, false),
    }
}

} // verus!

//! A store in memory that keeps the store's contract.

use vstd::prelude::*;
use crate::crawlers::product_views;
use crate::product::{Product, ProductView};
use crate::repository::laws::{
    lemma_automatic_writes_one, lemma_find, lemma_manual_or_unknown_writes_nothing,
    lemma_next_id_grows, lemma_upserted_all, lemma_upserted_all_ids,
};
use crate::repository::model::{
    active, any_processing, assigned, automatically_assignable, claimed, find, has_key,
    ids_below, inserted,
    inserted_all, links_of_benchmark, marked, marked_one, new_row, overwritten_row, owned_by,
    products_of_crawler, released, rows_assigned, rows_of_hub, rows_with_id, stored_count,
    unique_ids, unique_keys, upserted_all, with_stats,
    without_benchmark, without_crawler, without_links_to, FlagRow, LinkRow, LockTable,
    ProductRowView, ProductTable,
};
use crate::text::same_text;
use crate::types::{CategoryAssignmentSource, HubId, RepositoryError};

verus! {

/// A stored product.
pub struct ProductRow {
    pub id: i32,
    pub product: Product,
    pub embedding: Option<Vec<u8>>,
    pub category_id: Option<i32>,
    pub category_assignment_source: CategoryAssignmentSource,
    pub updated_at: i64,
}

impl View for ProductRow {
    type V = ProductRowView;

    open spec fn view(&self) -> ProductRowView {
        ProductRowView {
            id: self.id,
            product: self.product@,
            embedding: match self.embedding {
                Some(blob) => Some(blob@),
                None => None,
            },
            category_id: self.category_id,
            category_assignment_source: self.category_assignment_source,
            updated_at: self.updated_at,
        }
    }
}

/// The views of a list of stored products.
pub open spec fn row_views(v: Seq<ProductRow>) -> Seq<ProductRowView> {
    Seq::new(v.len(), |i: int| v[i]@)
}

/// The tables of a store as mathematical values.
pub struct StoreView {
    pub locks: LockTable,
    pub products: ProductTable,
    pub links: Seq<LinkRow>,
}

impl StoreView {
    /// No two products have the same natural key or the same identity,
    /// and the identity that the next new product gets is above all that
    /// are in use.
    pub open spec fn wf(self) -> bool {
        &&& unique_keys(self.products.rows)
        &&& unique_ids(self.products.rows)
        &&& ids_below(self.products)
        &&& 0 <= self.products.next_id <= i32::MAX
    }
}

/// Whether a product of `products` has the key of a row, or of a product
/// that stands before it.
pub open spec fn conflicting(rows: Seq<ProductRowView>, products: Seq<ProductView>) -> bool {
    exists|j: int|
        0 <= j < products.len() && (find(
            rows,
            (#[trigger] products[j]).crawler_id,
            products[j].url,
            0,
        ) < rows.len() || exists|i: int|
            0 <= i < j && (#[trigger] products[i]).crawler_id == products[j].crawler_id
                && products[i].url == products[j].url)
}

/// A store in memory.
pub struct MemoryRepository {
    crawlers: Vec<FlagRow>,
    benchmarks: Vec<FlagRow>,
    products: Vec<ProductRow>,
    links: Vec<LinkRow>,
    next_id: i32,
}

impl View for MemoryRepository {
    type V = StoreView;

    closed spec fn view(&self) -> StoreView {
        StoreView {
            locks: LockTable { crawlers: self.crawlers@, benchmarks: self.benchmarks@ },
            products: ProductTable {
                rows: row_views(self.products@),
                next_id: self.next_id as int,
            },
            links: self.links@,
        }
    }
}

/// A copy of a stored vector.
fn copy_blob(blob: &Option<Vec<u8>>) -> (r: Option<Vec<u8>>)
    ensures
        match (r, *blob) {
            (Some(a), Some(b)) => a@ == b@,
            (None, None) => true,
            _ => false,
        },
{
    match blob {
        Some(bytes) => {
            let mut out: Vec<u8> = Vec::new();
            let mut i: usize = 0;
            while i < bytes.len()
                invariant
                    i <= bytes.len(),
                    out@ == bytes@.take(i as int),
                decreases bytes.len() - i,
            {
                out.push(bytes[i]);
                i += 1;
                assert(out@ =~= bytes@.take(i as int));
            }
            assert(bytes@.take(bytes.len() as int) =~= bytes@);
            Some(out)
        },
        None => None,
    }
}

impl ProductRow {
    /// A copy of the row.
    pub fn copy(&self) -> (r: ProductRow)
        ensures
            r@ == self@,
    {
        ProductRow {
            id: self.id,
            product: self.product.copy(),
            embedding: copy_blob(&self.embedding),
            category_id: self.category_id,
            category_assignment_source: self.category_assignment_source,
            updated_at: self.updated_at,
        }
    }
}

/// A copy of the stored products.
fn copy_rows(rows: &Vec<ProductRow>) -> (r: Vec<ProductRow>)
    ensures
        row_views(r@) == row_views(rows@),
{
    let mut out: Vec<ProductRow> = Vec::new();
    let mut i: usize = 0;
    while i < rows.len()
        invariant
            i <= rows.len(),
            out.len() == i,
            forall|k: int| 0 <= k < i ==> out@[k]@ == rows@[k]@,
        decreases rows.len() - i,
    {
        out.push(rows[i].copy());
        i += 1;
    }
    assert(row_views(out@) =~= row_views(rows@));
    out
}

/// Marks the rows of a tenant.
fn mark(rows: &mut Vec<FlagRow>, hub_id: i32, processing: bool) -> (n: usize)
    ensures
        final(rows)@ == marked(old(rows)@, hub_id, processing),
        n == rows_of_hub(old(rows)@, hub_id, old(rows)@.len() as int),
{
    let mut n: usize = 0;
    let mut i: usize = 0;
    while i < rows.len()
        invariant
            i <= rows.len(),
            n <= i,
            rows.len() == old(rows).len(),
            n == rows_of_hub(old(rows)@, hub_id, i as int),
            forall|k: int| 0 <= k < i ==> rows@[k] == marked(old(rows)@, hub_id, processing)[k],
            forall|k: int| i <= k < rows.len() ==> rows@[k] == old(rows)@[k],
        decreases rows.len() - i,
    {
        let row = rows[i];
        if row.hub_id == hub_id {
            rows.set(i, FlagRow { processing, ..row });
            n += 1;
        }
        i += 1;
    }
    assert(rows@ =~= marked(old(rows)@, hub_id, processing));
    n
}

/// Marks the row with an identity.
fn mark_one(rows: &mut Vec<FlagRow>, id: i32, processing: bool) -> (n: usize)
    ensures
        final(rows)@ == marked_one(old(rows)@, id, processing),
        n == rows_with_id(old(rows)@, id, old(rows)@.len() as int),
{
    let mut n: usize = 0;
    let mut i: usize = 0;
    while i < rows.len()
        invariant
            i <= rows.len(),
            n <= i,
            rows.len() == old(rows).len(),
            n == rows_with_id(old(rows)@, id, i as int),
            forall|k: int| 0 <= k < i ==> rows@[k] == marked_one(old(rows)@, id, processing)[k],
            forall|k: int| i <= k < rows.len() ==> rows@[k] == old(rows)@[k],
        decreases rows.len() - i,
    {
        let row = rows[i];
        if row.id == id {
            rows.set(i, FlagRow { processing, ..row });
            n += 1;
        }
        i += 1;
    }
    assert(rows@ =~= marked_one(old(rows)@, id, processing));
    n
}

/// Writes the statistics of the row with an identity.
fn write_stats(rows: &mut Vec<FlagRow>, id: i32, count: i32, now: i64) -> (n: usize)
    ensures
        final(rows)@ == with_stats(old(rows)@, id, count, now),
        n == rows_with_id(old(rows)@, id, old(rows)@.len() as int),
{
    let mut n: usize = 0;
    let mut i: usize = 0;
    while i < rows.len()
        invariant
            i <= rows.len(),
            n <= i,
            rows.len() == old(rows).len(),
            n == rows_with_id(old(rows)@, id, i as int),
            forall|k: int| 0 <= k < i ==> rows@[k] == with_stats(old(rows)@, id, count, now)[k],
            forall|k: int| i <= k < rows.len() ==> rows@[k] == old(rows)@[k],
        decreases rows.len() - i,
    {
        let row = rows[i];
        if row.id == id {
            rows.set(
                i,
                FlagRow { processing: false, num_products: count, updated_at: now, ..row },
            );
            n += 1;
        }
        i += 1;
    }
    assert(rows@ =~= with_stats(old(rows)@, id, count, now));
    n
}

/// Whether a row of the tenant is marked.
fn is_active(rows: &Vec<FlagRow>, hub_id: i32) -> (r: bool)
    ensures
        r == active(rows@, hub_id),
{
    let mut i: usize = 0;
    while i < rows.len()
        invariant
            i <= rows.len(),
            forall|k: int| 0 <= k < i ==> !((#[trigger] rows@[k]).hub_id == hub_id
                && rows@[k].processing),
        decreases rows.len() - i,
    {
        if rows[i].hub_id == hub_id && rows[i].processing {
            return true;
        }
        i += 1;
    }
    false
}

/// The first row with the key.
fn find_row(rows: &Vec<ProductRow>, crawler_id: i32, url: &str) -> (r: usize)
    ensures
        r == find(row_views(rows@), crawler_id, url@, 0),
        r <= rows.len(),
{
    let mut i: usize = 0;
    while i < rows.len()
        invariant
            i <= rows.len(),
            find(row_views(rows@), crawler_id, url@, i as int) == find(
                row_views(rows@),
                crawler_id,
                url@,
                0,
            ),
        decreases rows.len() - i,
    {
        let row = &rows[i];
        assert(row_views(rows@)[i as int] == row@);
        if row.product.crawler_id() == crawler_id && same_text(
            row.product.url().as_str(),
            url,
        ) {
            return i;
        }
        i += 1;
    }
    i
}

impl MemoryRepository {
    /// The store's invariant.
    pub open spec fn wf(&self) -> bool {
        self@.wf()
    }

    /// An empty store, whose first product gets the identity 1.
    pub fn new() -> (r: MemoryRepository)
        ensures
            r.wf(),
            r@.locks.crawlers.len() == 0,
            r@.locks.benchmarks.len() == 0,
            r@.products.rows.len() == 0,
            r@.products.next_id == 1,
            r@.links.len() == 0,
    {
        MemoryRepository {
            crawlers: Vec::new(),
            benchmarks: Vec::new(),
            products: Vec::new(),
            links: Vec::new(),
            next_id: 1,
        }
    }

    /// Adds a crawler.
    pub fn add_crawler(&mut self, row: FlagRow)
        requires
            old(self).wf(),
        ensures
            final(self).wf(),
            final(self)@ == (StoreView {
                locks: LockTable {
                    crawlers: old(self)@.locks.crawlers.push(row),
                    ..old(self)@.locks
                },
                ..old(self)@
            }),
    {
        self.crawlers.push(row);
    }

    /// Adds a benchmark.
    pub fn add_benchmark(&mut self, row: FlagRow)
        requires
            old(self).wf(),
        ensures
            final(self).wf(),
            final(self)@ == (StoreView {
                locks: LockTable {
                    benchmarks: old(self)@.locks.benchmarks.push(row),
                    ..old(self)@.locks
                },
                ..old(self)@
            }),
    {
        self.benchmarks.push(row);
    }

    /// The crawlers, as the processing lock reads them.
    pub fn crawlers(&self) -> (r: &Vec<FlagRow>)
        ensures
            r@ == self@.locks.crawlers,
    {
        &self.crawlers
    }

    /// The benchmarks, as the processing lock reads them.
    pub fn benchmarks(&self) -> (r: &Vec<FlagRow>)
        ensures
            r@ == self@.locks.benchmarks,
    {
        &self.benchmarks
    }

    /// The stored products.
    pub fn products(&self) -> (r: &Vec<ProductRow>)
        ensures
            row_views(r@) == self@.products.rows,
    {
        &self.products
    }

    /// One of the stored products. Whatever is stored has passed validation.
    pub fn product_row(&self, i: usize) -> (r: &ProductRow)
        requires
            i < self@.products.rows.len(),
        ensures
            r@ == self@.products.rows[i as int],
            r@.product.valid(),
    {
        let row = &self.products[i];
        proof {
            use_type_invariant(&row.product);
        }
        row
    }

    /// The number of stored products.
    pub fn product_count(&self) -> (n: usize)
        ensures
            n == self@.products.rows.len(),
    {
        self.products.len()
    }

    /// The links between benchmarks and products.
    pub fn links(&self) -> (r: &Vec<LinkRow>)
        ensures
            r@ == self@.links,
    {
        &self.links
    }

    /// Whether a job of the tenant is running.
    pub fn has_any_processing_in_hub(&self, hub_id: HubId) -> (r: bool)
        ensures
            r == any_processing(self@.locks, hub_id@ as i32),
    {
        let hub = hub_id.get();
        is_active(&self.crawlers, hub) || is_active(&self.benchmarks, hub)
    }

    /// Claims the tenant's processing lock. Where no job of the tenant is
    /// running, all its crawlers and benchmarks are marked and the claim is
    /// granted; otherwise nothing changes and the claim is refused.
    pub fn claim_hub_processing_lock(&mut self, hub_id: HubId) -> (granted: bool)
        requires
            old(self).wf(),
        ensures
            final(self).wf(),
            (final(self)@.locks, granted) == claimed(old(self)@.locks, hub_id@ as i32),
            final(self)@.products == old(self)@.products,
            final(self)@.links == old(self)@.links,
    {
        let hub = hub_id.get();
        if is_active(&self.crawlers, hub) || is_active(&self.benchmarks, hub) {
            false
        } else {
            mark(&mut self.crawlers, hub, true);
            mark(&mut self.benchmarks, hub, true);
            true
        }
    }

    /// Releases the tenant's processing lock.
    pub fn release_hub_processing_lock(&mut self, hub_id: HubId)
        requires
            old(self).wf(),
        ensures
            final(self).wf(),
            final(self)@.locks == released(old(self)@.locks, hub_id@ as i32),
            final(self)@.products == old(self)@.products,
            final(self)@.links == old(self)@.links,
    {
        let hub = hub_id.get();
        mark(&mut self.crawlers, hub, false);
        mark(&mut self.benchmarks, hub, false);
    }

    /// Marks a crawler as processing, or takes the mark back. Gives the
    /// number of rows changed.
    pub fn set_crawler_processing(&mut self, crawler_id: i32, processing: bool) -> (n: usize)
        requires
            old(self).wf(),
        ensures
            final(self).wf(),
            final(self)@ == (StoreView {
                locks: LockTable {
                    crawlers: marked_one(old(self)@.locks.crawlers, crawler_id, processing),
                    ..old(self)@.locks
                },
                ..old(self)@
            }),
            n == rows_with_id(
                old(self)@.locks.crawlers,
                crawler_id,
                old(self)@.locks.crawlers.len() as int,
            ),
    {
        mark_one(&mut self.crawlers, crawler_id, processing)
    }

    /// Marks a benchmark as processing, or takes the mark back. Gives the
    /// number of rows changed.
    pub fn set_benchmark_processing(&mut self, benchmark_id: i32, processing: bool) -> (n: usize)
        requires
            old(self).wf(),
        ensures
            final(self).wf(),
            final(self)@ == (StoreView {
                locks: LockTable {
                    benchmarks: marked_one(old(self)@.locks.benchmarks, benchmark_id, processing),
                    ..old(self)@.locks
                },
                ..old(self)@
            }),
            n == rows_with_id(
                old(self)@.locks.benchmarks,
                benchmark_id,
                old(self)@.locks.benchmarks.len() as int,
            ),
    {
        mark_one(&mut self.benchmarks, benchmark_id, processing)
    }

    /// Updates the statistics of a crawler: it holds the number of its
    /// products and the time `now`, and is no longer processing. Gives the
    /// number of rows changed.
    pub fn update_crawler_stats(&mut self, crawler_id: i32, now: i64) -> (n: usize)
        requires
            old(self).wf(),
        ensures
            final(self).wf(),
            final(self)@ == (StoreView {
                locks: LockTable {
                    crawlers: with_stats(
                        old(self)@.locks.crawlers,
                        crawler_id,
                        stored_count(
                            products_of_crawler(
                                old(self)@.products.rows,
                                crawler_id,
                                old(self)@.products.rows.len() as int,
                            ),
                        ),
                        now,
                    ),
                    ..old(self)@.locks
                },
                ..old(self)@
            }),
            n == rows_with_id(
                old(self)@.locks.crawlers,
                crawler_id,
                old(self)@.locks.crawlers.len() as int,
            ),
    {
        let ghost rows = row_views(self.products@);
        let mut count: i32 = 0;
        let mut i: usize = 0;
        while i < self.products.len()
            invariant
                i <= self.products.len(),
                rows == row_views(self.products@),
                self@ == old(self)@,
                count == stored_count(products_of_crawler(rows, crawler_id, i as int)),
                0 <= products_of_crawler(rows, crawler_id, i as int),
            decreases self.products.len() - i,
        {
            let row = &self.products[i];
            assert(rows[i as int] == row@);
            if row.product.crawler_id() == crawler_id && count < i32::MAX {
                count += 1;
            }
            i += 1;
        }
        write_stats(&mut self.crawlers, crawler_id, count, now)
    }

    /// Updates the statistics of a benchmark: it holds the number of its
    /// links and the time `now`, and is no longer processing. Gives the
    /// number of rows changed.
    pub fn update_benchmark_stats(&mut self, benchmark_id: i32, now: i64) -> (n: usize)
        requires
            old(self).wf(),
        ensures
            final(self).wf(),
            final(self)@ == (StoreView {
                locks: LockTable {
                    benchmarks: with_stats(
                        old(self)@.locks.benchmarks,
                        benchmark_id,
                        stored_count(
                            links_of_benchmark(
                                old(self)@.links,
                                benchmark_id,
                                old(self)@.links.len() as int,
                            ),
                        ),
                        now,
                    ),
                    ..old(self)@.locks
                },
                ..old(self)@
            }),
            n == rows_with_id(
                old(self)@.locks.benchmarks,
                benchmark_id,
                old(self)@.locks.benchmarks.len() as int,
            ),
    {
        let mut count: i32 = 0;
        let mut i: usize = 0;
        while i < self.links.len()
            invariant
                i <= self.links.len(),
                self@ == old(self)@,
                count == stored_count(links_of_benchmark(self.links@, benchmark_id, i as int)),
                0 <= links_of_benchmark(self.links@, benchmark_id, i as int),
            decreases self.links.len() - i,
        {
            if self.links[i].benchmark_id == benchmark_id && count < i32::MAX {
                count += 1;
            }
            i += 1;
        }
        write_stats(&mut self.benchmarks, benchmark_id, count, now)
    }

    /// Inserts products as new rows, all or none. Fails, and changes
    /// nothing, where a product has the key of a stored product or of a
    /// product before it, or where the identities run out.
    pub fn create_products(&mut self, products: &Vec<Product>, now: i64) -> (r: Result<
        usize,
        RepositoryError,
    >)
        requires
            old(self).wf(),
        ensures
            final(self).wf(),
            final(self)@.locks == old(self)@.locks,
            final(self)@.links == old(self)@.links,
            r is Ok <==> !conflicting(old(self)@.products.rows, product_views(products@))
                && old(self)@.products.next_id + products@.len() <= i32::MAX,
            match r {
                Ok(n) => n == products@.len() && final(self)@.products == inserted_all(
                    old(self)@.products,
                    product_views(products@),
                    now,
                    products@.len() as int,
                ),
                Err(_) => final(self)@ == old(self)@,
            },
    {
        let ghost rows = row_views(self.products@);
        let ghost wanted = product_views(products@);
        if products.len() > (i32::MAX - self.next_id) as usize {
            return Err(RepositoryError::Unexpected(String::from_str("no identity is left")));
        }
        let mut j: usize = 0;
        while j < products.len()
            invariant
                j <= products.len(),
                self@ == old(self)@,
                old(self).wf(),
                rows == row_views(self.products@),
                wanted == product_views(products@),
                forall|b: int|
                    0 <= b < j ==> find(
                        rows,
                        (#[trigger] wanted[b]).crawler_id,
                        wanted[b].url,
                        0,
                    ) >= rows.len() && forall|a: int|
                        0 <= a < b ==> !((#[trigger] wanted[a]).crawler_id == wanted[b].crawler_id
                            && wanted[a].url == wanted[b].url),
            decreases products.len() - j,
        {
            let p = &products[j];
            assert(wanted[j as int] == p@);
            if find_row(&self.products, p.crawler_id(), p.url().as_str()) < self.products.len() {
                assert(conflicting(rows, wanted));
                return Err(
                    RepositoryError::ValidationError(String::from_str("the product exists")),
                );
            }
            let mut i: usize = 0;
            while i < j
                invariant
                    i <= j < products.len(),
                    self@ == old(self)@,
                    old(self).wf(),
                    rows == row_views(self.products@),
                    wanted == product_views(products@),
                    p@ == wanted[j as int],
                    forall|a: int|
                        0 <= a < i ==> !((#[trigger] wanted[a]).crawler_id
                            == wanted[j as int].crawler_id && wanted[a].url
                            == wanted[j as int].url),
                decreases j - i,
            {
                let q = &products[i];
                assert(wanted[i as int] == q@);
                if q.crawler_id() == p.crawler_id() && same_text(
                    q.url().as_str(),
                    p.url().as_str(),
                ) {
                    assert(conflicting(rows, wanted));
                    return Err(
                        RepositoryError::ValidationError(String::from_str("the product repeats")),
                    );
                }
                i += 1;
            }
            j += 1;
        }
        assert(!conflicting(rows, wanted));
        let ghost before = self@.products;
        let mut k: usize = 0;
        while k < products.len()
            invariant
                k <= products.len(),
                wanted == product_views(products@),
                self@.locks == old(self)@.locks,
                self@.links == old(self)@.links,
                before == old(self)@.products,
                before.next_id + products.len() <= i32::MAX,
                self@.products == inserted_all(before, wanted, now, k as int),
                self@.products.next_id == before.next_id + k,
                0 <= before.next_id,
            decreases products.len() - k,
        {
            let ghost old_rows = row_views(self.products@);
            let row = ProductRow {
                id: self.next_id,
                product: products[k].copy(),
                embedding: None,
                category_id: None,
                category_assignment_source: CategoryAssignmentSource::Automatic,
                updated_at: now,
            };
            assert(row@ == new_row(self.next_id as int, wanted[k as int], now));
            self.products.push(row);
            self.next_id = self.next_id + 1;
            assert(row_views(self.products@) =~= old_rows.push(row@));
            k += 1;
        }
        proof {
            lemma_inserted_all_unique(before, wanted, now, products.len() as int);
            let after = inserted_all(before, wanted, now, products.len() as int);
            assert forall|a: int, b: int| 0 <= a < b < after.rows.len() implies (
            #[trigger] after.rows[a]).id != (#[trigger] after.rows[b]).id by {
                if b < before.rows.len() {
                    assert(before.rows[a].id != before.rows[b].id);
                } else if a < before.rows.len() {
                    assert(before.rows[a].id < before.next_id);
                    assert(after.rows[before.rows.len() + (b - before.rows.len())].id
                        == before.next_id + (b - before.rows.len()));
                } else {
                    assert(after.rows[before.rows.len() + (a - before.rows.len())].id
                        == before.next_id + (a - before.rows.len()));
                    assert(after.rows[before.rows.len() + (b - before.rows.len())].id
                        == before.next_id + (b - before.rows.len()));
                }
            }
            assert forall|i: int| 0 <= i < after.rows.len() implies (#[trigger] after.rows[i]).id
                < after.next_id by {
                if i < before.rows.len() {
                    assert(before.rows[i].id < before.next_id);
                } else {
                    assert(after.rows[before.rows.len() + (i - before.rows.len())].id
                        == before.next_id + (i - before.rows.len()));
                }
            }
        }
        Ok(products.len())
    }

    /// Upserts products by their natural key, all or none: a product is
    /// written over the stored product with its key, which keeps its
    /// identity, its vector and its category, or is inserted where there
    /// is none; every row written gets the time `now`. Fails, and changes
    /// nothing, where a product has to be inserted and no identity is left;
    /// products that are only written over need none.
    pub fn update_products(&mut self, products: &Vec<Product>, now: i64) -> (r: Result<
        usize,
        RepositoryError,
    >)
        requires
            old(self).wf(),
        ensures
            final(self).wf(),
            final(self)@.locks == old(self)@.locks,
            final(self)@.links == old(self)@.links,
            r is Ok <==> upserted_all(
                old(self)@.products,
                product_views(products@),
                now,
                products@.len() as int,
            ).next_id <= i32::MAX,
            match r {
                Ok(n) => n == products@.len() && final(self)@.products == upserted_all(
                    old(self)@.products,
                    product_views(products@),
                    now,
                    products@.len() as int,
                ),
                Err(_) => final(self)@ == old(self)@,
            },
    {
        let ghost wanted = product_views(products@);
        let ghost before = self@.products;
        let first_id = self.next_id;
        // Where the identities could run out, the rows are kept aside to be
        // put back.
        let mut aside: Option<Vec<ProductRow>> = if products.len() > (i32::MAX
            - self.next_id) as usize {
            Some(copy_rows(&self.products))
        } else {
            None
        };
        let mut k: usize = 0;
        while k < products.len()
            invariant
                k <= products.len(),
                wanted == product_views(products@),
                self@.locks == old(self)@.locks,
                self@.links == old(self)@.links,
                before == old(self)@.products,
                first_id == before.next_id,
                unique_keys(before.rows),
                unique_ids(before.rows),
                ids_below(before),
                aside matches Some(rows) ==> row_views(rows@) == before.rows,
                aside is None ==> before.next_id + products.len() <= i32::MAX,
                self@.products == upserted_all(before, wanted, now, k as int),
                self@.products.next_id <= before.next_id + k,
                0 <= before.next_id,
            decreases products.len() - k,
        {
            let ghost old_rows = row_views(self.products@);
            let p = &products[k];
            assert(wanted[k as int] == p@);
            let at = find_row(&self.products, p.crawler_id(), p.url().as_str());
            if at < self.products.len() {
                let old_row = &self.products[at];
                assert(old_rows[at as int] == old_row@);
                let row = ProductRow {
                    id: old_row.id,
                    product: p.copy(),
                    embedding: copy_blob(&old_row.embedding),
                    category_id: old_row.category_id,
                    category_assignment_source: old_row.category_assignment_source,
                    updated_at: now,
                };
                assert(row@ == overwritten_row(old_rows[at as int], p@, now));
                self.products.set(at, row);
                assert(row_views(self.products@) =~= old_rows.update(at as int, row@));
            } else if self.next_id == i32::MAX {
                proof {
                    assert(upserted_all(before, wanted, now, k + 1).next_id == i32::MAX + 1);
                    lemma_next_id_grows(before, wanted, now, k + 1, products.len() as int);
                }
                match aside {
                    Some(rows) => {
                        self.products = rows;
                        self.next_id = first_id;
                    },
                    None => {
                        assert(false);
                    },
                }
                return Err(RepositoryError::Unexpected(String::from_str("no identity is left")));
            } else {
                let row = ProductRow {
                    id: self.next_id,
                    product: p.copy(),
                    embedding: None,
                    category_id: None,
                    category_assignment_source: CategoryAssignmentSource::Automatic,
                    updated_at: now,
                };
                assert(row@ == new_row(self.next_id as int, p@, now));
                self.products.push(row);
                self.next_id = self.next_id + 1;
                assert(row_views(self.products@) =~= old_rows.push(row@));
            }
            k += 1;
        }
        proof {
            lemma_upserted_all(before, wanted, now, products.len() as int);
            lemma_upserted_all_ids(before, wanted, now, products.len() as int);
        }
        Ok(products.len())
    }

    /// Deletes the products of a crawler, and before them every link to
    /// one of them. Gives the number of products deleted.
    pub fn delete_products(&mut self, crawler_id: i32) -> (n: usize)
        requires
            old(self).wf(),
        ensures
            final(self).wf(),
            final(self)@.locks == old(self)@.locks,
            final(self)@.products.next_id == old(self)@.products.next_id,
            final(self)@.products.rows == without_crawler(
                old(self)@.products.rows,
                crawler_id,
                old(self)@.products.rows.len() as int,
            ),
            final(self)@.links == without_links_to(
                old(self)@.links,
                old(self)@.products.rows,
                crawler_id,
                old(self)@.links.len() as int,
            ),
            n == old(self)@.products.rows.len() - final(self)@.products.rows.len(),
    {
        let ghost rows = row_views(self.products@);
        let ghost links = self.links@;
        let mut kept_links: Vec<LinkRow> = Vec::new();
        let mut k: usize = 0;
        while k < self.links.len()
            invariant
                k <= self.links.len(),
                self.links@ == links,
                rows == row_views(self.products@),
                kept_links@ == without_links_to(links, rows, crawler_id, k as int),
            decreases self.links.len() - k,
        {
            let link = self.links[k];
            let mut owned = false;
            let mut i: usize = 0;
            while i < self.products.len() && !owned
                invariant
                    i <= self.products.len(),
                    rows == row_views(self.products@),
                    owned <==> exists|m: int|
                        0 <= m < i && (#[trigger] rows[m]).id == link.product_id
                            && rows[m].product.crawler_id == crawler_id,
                decreases self.products.len() - i + (if owned { 0int } else { 1int }),
            {
                let row = &self.products[i];
                assert(rows[i as int] == row@);
                if row.id == link.product_id && row.product.crawler_id() == crawler_id {
                    owned = true;
                }
                i += 1;
            }
            assert(owned == owned_by(rows, crawler_id, link.product_id));
            if !owned {
                kept_links.push(link);
            }
            k += 1;
        }
        let mut kept: Vec<ProductRow> = Vec::new();
        let mut i: usize = 0;
        assert(row_views(kept@) =~= without_crawler(rows, crawler_id, 0));
        while i < self.products.len()
            invariant
                i <= self.products.len(),
                rows == row_views(self.products@),
                kept.len() <= i,
                row_views(kept@) == without_crawler(rows, crawler_id, i as int),
            decreases self.products.len() - i,
        {
            let row = &self.products[i];
            assert(rows[i as int] == row@);
            if row.product.crawler_id() != crawler_id {
                let ghost before = row_views(kept@);
                let copy = row.copy();
                kept.push(copy);
                assert(row_views(kept@) =~= before.push(rows[i as int]));
            }
            i += 1;
        }
        proof {
            lemma_without_crawler_unique(rows, crawler_id, rows.len() as int);
        }
        let n = self.products.len() - kept.len();
        self.products = kept;
        self.links = kept_links;
        n
    }

    /// Sets the category of a product as an automatic assignment; `None`
    /// clears it. A product whose category was set by an operator is not
    /// changed. Gives the number of rows changed: one for a stored product
    /// whose category was not set by an operator, none otherwise.
    pub fn set_product_category_automatic(
        &mut self,
        product_id: i32,
        category_id: Option<i32>,
        now: i64,
    ) -> (n: usize)
        requires
            old(self).wf(),
        ensures
            final(self).wf(),
            final(self)@.locks == old(self)@.locks,
            final(self)@.links == old(self)@.links,
            final(self)@.products.next_id == old(self)@.products.next_id,
            final(self)@.products.rows == assigned(
                old(self)@.products.rows,
                product_id,
                category_id,
                now,
            ),
            n == rows_assigned(
                old(self)@.products.rows,
                product_id,
                false,
                old(self)@.products.rows.len() as int,
            ),
            n == (if automatically_assignable(old(self)@.products.rows, product_id) {
                1int
            } else {
                0int
            }),
    {
        let ghost rows = self@.products.rows;
        let n = self.assign(
            product_id,
            category_id,
            CategoryAssignmentSource::Automatic,
            now,
            false,
        );
        proof {
            if automatically_assignable(rows, product_id) {
                let at = choose|i: int|
                    0 <= i < rows.len() && (#[trigger] rows[i]).id == product_id
                        && rows[i].category_assignment_source != CategoryAssignmentSource::Manual;
                lemma_automatic_writes_one(rows, product_id, at, rows.len() as int);
            } else {
                lemma_manual_or_unknown_writes_nothing(rows, product_id, rows.len() as int);
            }
        }
        n
    }

    /// Sets the category of a product as an operator does. Gives the
    /// number of rows changed.
    pub fn set_product_category_manual(
        &mut self,
        product_id: i32,
        category_id: Option<i32>,
        now: i64,
    ) -> (n: usize)
        requires
            old(self).wf(),
        ensures
            final(self).wf(),
            final(self)@.locks == old(self)@.locks,
            final(self)@.links == old(self)@.links,
            final(self)@.products.next_id == old(self)@.products.next_id,
            final(self)@.products.rows.len() == old(self)@.products.rows.len(),
            forall|i: int|
                0 <= i < old(self)@.products.rows.len() ==> #[trigger] final(
                    self
                )@.products.rows[i] == (if old(self)@.products.rows[i].id == product_id {
                    ProductRowView {
                        category_id,
                        category_assignment_source: CategoryAssignmentSource::Manual,
                        updated_at: now,
                        ..old(self)@.products.rows[i]
                    }
                } else {
                    old(self)@.products.rows[i]
                }),
            n == rows_assigned(
                old(self)@.products.rows,
                product_id,
                true,
                old(self)@.products.rows.len() as int,
            ),
    {
        self.assign(product_id, category_id, CategoryAssignmentSource::Manual, now, true)
    }

    /// Writes a category to the rows of a product; rows set by an operator
    /// only where `over_manual` says so.
    fn assign(
        &mut self,
        product_id: i32,
        category_id: Option<i32>,
        source: CategoryAssignmentSource,
        now: i64,
        over_manual: bool,
    ) -> (n: usize)
        requires
            old(self).wf(),
        ensures
            final(self).wf(),
            final(self)@.locks == old(self)@.locks,
            final(self)@.links == old(self)@.links,
            final(self)@.products.next_id == old(self)@.products.next_id,
            final(self)@.products.rows.len() == old(self)@.products.rows.len(),
            forall|i: int|
                0 <= i < old(self)@.products.rows.len() ==> #[trigger] final(
                    self
                )@.products.rows[i] == (if old(self)@.products.rows[i].id == product_id && (
                over_manual || old(self)@.products.rows[i].category_assignment_source
                    != CategoryAssignmentSource::Manual) {
                    ProductRowView {
                        category_id,
                        category_assignment_source: source,
                        updated_at: now,
                        ..old(self)@.products.rows[i]
                    }
                } else {
                    old(self)@.products.rows[i]
                }),
            !over_manual && source == CategoryAssignmentSource::Automatic ==> final(
                self
            )@.products.rows == assigned(old(self)@.products.rows, product_id, category_id, now),
            n == rows_assigned(
                old(self)@.products.rows,
                product_id,
                over_manual,
                old(self)@.products.rows.len() as int,
            ),
    {
        let ghost rows = row_views(self.products@);
        let mut n: usize = 0;
        let mut i: usize = 0;
        while i < self.products.len()
            invariant
                i <= self.products.len(),
                n <= i,
                n == rows_assigned(rows, product_id, over_manual, i as int),
                self.products.len() == rows.len(),
                self@.locks == old(self)@.locks,
                self@.links == old(self)@.links,
                self@.products.next_id == old(self)@.products.next_id,
                rows == old(self)@.products.rows,
                forall|k: int|
                    0 <= k < i ==> #[trigger] row_views(self.products@)[k] == (if rows[k].id
                        == product_id && (over_manual || rows[k].category_assignment_source
                        != CategoryAssignmentSource::Manual) {
                        ProductRowView {
                            category_id,
                            category_assignment_source: source,
                            updated_at: now,
                            ..rows[k]
                        }
                    } else {
                        rows[k]
                    }),
                forall|k: int|
                    i <= k < rows.len() ==> #[trigger] row_views(self.products@)[k] == rows[k],
            decreases self.products.len() - i,
        {
            let ghost current = row_views(self.products@);
            let row = &self.products[i];
            assert(current[i as int] == row@);
            let manual = match row.category_assignment_source {
                CategoryAssignmentSource::Manual => true,
                CategoryAssignmentSource::Automatic => false,
            };
            if row.id == product_id && (over_manual || !manual) {
                let changed = ProductRow {
                    id: row.id,
                    product: row.product.copy(),
                    embedding: copy_blob(&row.embedding),
                    category_id,
                    category_assignment_source: source,
                    updated_at: now,
                };
                self.products.set(i, changed);
                assert(row_views(self.products@) =~= current.update(i as int, changed@));
                n += 1;
            }
            i += 1;
        }
        proof {
            let after = row_views(self.products@);
            assert forall|a: int, b: int| 0 <= a < b < after.len() implies !has_key(
                #[trigger] after[a],
                (#[trigger] after[b]).product.crawler_id,
                after[b].product.url,
            ) by {
                assert(!has_key(rows[a], rows[b].product.crawler_id, rows[b].product.url));
            }
            if !over_manual && source == CategoryAssignmentSource::Automatic {
                assert(after =~= assigned(rows, product_id, category_id, now));
            }
        }
        n
    }

    /// Links a product to a benchmark.
    pub fn set_benchmark_association(&mut self, benchmark_id: i32, product_id: i32, distance: u32)
        requires
            old(self).wf(),
        ensures
            final(self).wf(),
            final(self)@ == (StoreView {
                links: old(self)@.links.push(LinkRow { benchmark_id, product_id, distance }),
                ..old(self)@
            }),
    {
        self.links.push(LinkRow { benchmark_id, product_id, distance });
    }

    /// Removes every link of a benchmark. Gives the number of links
    /// removed.
    pub fn remove_benchmark_associations(&mut self, benchmark_id: i32) -> (n: usize)
        requires
            old(self).wf(),
        ensures
            final(self).wf(),
            final(self)@.locks == old(self)@.locks,
            final(self)@.products == old(self)@.products,
            final(self)@.links == without_benchmark(
                old(self)@.links,
                benchmark_id,
                old(self)@.links.len() as int,
            ),
            n == old(self)@.links.len() - final(self)@.links.len(),
    {
        let ghost links = self.links@;
        let mut kept: Vec<LinkRow> = Vec::new();
        let mut k: usize = 0;
        while k < self.links.len()
            invariant
                k <= self.links.len(),
                self.links@ == links,
                kept.len() <= k,
                kept@ == without_benchmark(links, benchmark_id, k as int),
            decreases self.links.len() - k,
        {
            let link = self.links[k];
            if link.benchmark_id != benchmark_id {
                kept.push(link);
            }
            k += 1;
        }
        let n = self.links.len() - kept.len();
        self.links = kept;
        n
    }
}

/// Inserting products whose keys are new and differ keeps the keys unique.
pub proof fn lemma_inserted_all_unique(
    t: ProductTable,
    products: Seq<ProductView>,
    now: i64,
    k: int,
)
    requires
        unique_keys(t.rows),
        !conflicting(t.rows, products),
        0 <= k <= products.len(),
        0 <= t.next_id,
        t.next_id + k <= i32::MAX,
    ensures
        unique_keys(inserted_all(t, products, now, k).rows),
        forall|j: int|
            0 <= j < k ==> (#[trigger] inserted_all(t, products, now, k).rows[t.rows.len()
                + j]).id == t.next_id + j,
        inserted_all(t, products, now, k).rows.len() == t.rows.len() + k,
        inserted_all(t, products, now, k).next_id == t.next_id + k,
        forall|i: int|
            0 <= i < t.rows.len() ==> #[trigger] inserted_all(t, products, now, k).rows[i]
                == t.rows[i],
        forall|j: int|
            0 <= j < k ==> (#[trigger] inserted_all(t, products, now, k).rows[t.rows.len()
                + j]).product == products[j],
    decreases k,
{
    if k > 0 {
        lemma_inserted_all_unique(t, products, now, k - 1);
        let v = inserted_all(t, products, now, k - 1);
        let u = inserted_all(t, products, now, k);
        let p = products[k - 1];
        assert(u.rows == v.rows.push(new_row(v.next_id, p, now)));
        lemma_find(t.rows, p.crawler_id, p.url, 0);
        assert forall|a: int, b: int| 0 <= a < b < u.rows.len() implies !has_key(
            #[trigger] u.rows[a],
            (#[trigger] u.rows[b]).product.crawler_id,
            u.rows[b].product.url,
        ) by {
            if b < v.rows.len() {
                assert(!has_key(v.rows[a], v.rows[b].product.crawler_id, v.rows[b].product.url));
            } else if a < t.rows.len() {
                assert(v.rows[a] == t.rows[a]);
                assert(!has_key(t.rows[a], p.crawler_id, p.url));
            } else {
                let j = a - t.rows.len();
                assert(v.rows[t.rows.len() + j].product == products[j]);
                if has_key(v.rows[a], p.crawler_id, p.url) {
                    assert(products[j].crawler_id == products[k - 1].crawler_id && products[j].url
                        == products[k - 1].url);
                    assert(conflicting(t.rows, products));
                }
            }
        }
    }
}

/// Taking a crawler's rows away keeps the keys unique.
pub proof fn lemma_without_crawler_unique(rows: Seq<ProductRowView>, crawler_id: i32, k: int)
    requires
        unique_keys(rows),
        0 <= k <= rows.len(),
    ensures
        unique_keys(without_crawler(rows, crawler_id, k)),
        without_crawler(rows, crawler_id, k).len() <= k,
        forall|a: int|
            0 <= a < without_crawler(rows, crawler_id, k).len() ==> exists|i: int|
                0 <= i < k && #[trigger] rows[i] == (#[trigger] without_crawler(
                    rows,
                    crawler_id,
                    k,
                )[a]),
    decreases k,
{
    if k > 0 {
        lemma_without_crawler_unique(rows, crawler_id, k - 1);
        let before = without_crawler(rows, crawler_id, k - 1);
        let now = without_crawler(rows, crawler_id, k);
        assert forall|a: int| 0 <= a < now.len() implies exists|i: int|
            0 <= i < k && #[trigger] rows[i] == (#[trigger] now[a]) by {
            if a < before.len() {
                let i = choose|i: int| 0 <= i < k - 1 && #[trigger] rows[i] == before[a];
                assert(0 <= i < k && rows[i] == now[a]);
            } else {
                assert(rows[k - 1] == now[a]);
            }
        }
        assert forall|a: int, b: int| 0 <= a < b < now.len() implies !has_key(
            #[trigger] now[a],
            (#[trigger] now[b]).product.crawler_id,
            now[b].product.url,
        ) by {
            if b == before.len() {
                let i = choose|i: int| 0 <= i < k - 1 && #[trigger] rows[i] == before[a];
                assert(!has_key(rows[i], rows[k - 1].product.crawler_id, rows[k - 1].product.url));
            }
        }
    }
}

} // verus!

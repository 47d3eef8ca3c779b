//! The laws of the store.

use vstd::prelude::*;
use crate::guard::{finished, guard_next, guard_result_of, GuardEvent, GuardOutcome, GuardPhase};
use crate::product::ProductView;
use crate::repository::model::{
    active, any_processing, assigned, claimed, find, has_key, marked, new_row,
    ids_below, overwritten_row, present, released, rows_assigned, unique_ids, unique_keys,
    upserted, upserted_all, FlagRow, LockTable,
    ProductRowView, ProductTable,
};
use crate::types::CategoryAssignmentSource;

verus! {

/// `find` gives the first row with the key, and the number of rows only
/// where no row has it.
pub proof fn lemma_find(rows: Seq<ProductRowView>, crawler_id: i32, url: Seq<char>, i: int)
    requires
        0 <= i <= rows.len(),
    ensures
        i <= find(rows, crawler_id, url, i) <= rows.len(),
        find(rows, crawler_id, url, i) < rows.len() ==> has_key(
            rows[find(rows, crawler_id, url, i)],
            crawler_id,
            url,
        ),
        forall|j: int|
            i <= j < find(rows, crawler_id, url, i) ==> !has_key(
                #[trigger] rows[j],
                crawler_id,
                url,
            ),
    decreases rows.len() - i,
{
    if i < rows.len() && !has_key(rows[i], crawler_id, url) {
        lemma_find(rows, crawler_id, url, i + 1);
    }
}

/// The index of the last of the first `k` products with the given key; -1
/// where there is none.
pub open spec fn last_with_key(
    products: Seq<ProductView>,
    crawler_id: i32,
    url: Seq<char>,
    k: int,
) -> int
    decreases k,
{
    if k <= 0 {
        -1
    } else if products[k - 1].crawler_id == crawler_id && products[k - 1].url == url {
        k - 1
    } else {
        last_with_key(products, crawler_id, url, k - 1)
    }
}

/// What upserting the first `k` products makes of a table whose keys are
/// unique: the keys stay unique and the rows that were there keep their
/// place, their identity, their vector and their category; a row whose key
/// is among the products holds the last product with that key and the time
/// of the upsert, every other row is as it was; and every product's key has
/// a row. Where every product's key had a row before, no row is added.
pub proof fn lemma_upserted_all(t: ProductTable, products: Seq<ProductView>, now: i64, k: int)
    requires
        unique_keys(t.rows),
        0 <= k <= products.len(),
    ensures
        ({
            let u = upserted_all(t, products, now, k);
            &&& unique_keys(u.rows)
            &&& u.rows.len() >= t.rows.len()
            &&& u.next_id - t.next_id == u.rows.len() - t.rows.len()
            &&& forall|i: int|
                0 <= i < t.rows.len() ==> {
                    let row = #[trigger] u.rows[i];
                    &&& has_key(row, t.rows[i].product.crawler_id, t.rows[i].product.url)
                    &&& row.id == t.rows[i].id
                    &&& row.embedding == t.rows[i].embedding
                    &&& row.category_id == t.rows[i].category_id
                    &&& row.category_assignment_source == t.rows[i].category_assignment_source
                }
            &&& forall|i: int|
                0 <= i < u.rows.len() ==> {
                    let row = #[trigger] u.rows[i];
                    let j = last_with_key(products, row.product.crawler_id, row.product.url, k);
                    if j >= 0 {
                        row.product == products[j] && row.updated_at == now
                    } else {
                        i < t.rows.len() && row == t.rows[i]
                    }
                }
            &&& forall|j: int|
                0 <= j < k ==> find(
                    u.rows,
                    (#[trigger] products[j]).crawler_id,
                    products[j].url,
                    0,
                ) < u.rows.len()
            &&& (forall|j: int|
                0 <= j < k ==> find(
                    t.rows,
                    (#[trigger] products[j]).crawler_id,
                    products[j].url,
                    0,
                ) < t.rows.len()) ==> u.rows.len() == t.rows.len()
        }),
    decreases k,
{
    if k > 0 {
        lemma_upserted_all(t, products, now, k - 1);
        let v = upserted_all(t, products, now, k - 1);
        let u = upserted_all(t, products, now, k);
        let p = products[k - 1];
        lemma_find(v.rows, p.crawler_id, p.url, 0);
        let at = find(v.rows, p.crawler_id, p.url, 0);
        assert(u == upserted(v, p, now));
        if at < v.rows.len() {
            assert(u.rows == v.rows.update(at, overwritten_row(v.rows[at], p, now)));
            assert forall|i: int| 0 <= i < u.rows.len() implies has_key(
                #[trigger] u.rows[i],
                v.rows[i].product.crawler_id,
                v.rows[i].product.url,
            ) by {}
            assert(unique_keys(u.rows)) by {
                assert forall|a: int, b: int| 0 <= a < b < u.rows.len() implies !has_key(
                    #[trigger] u.rows[a],
                    (#[trigger] u.rows[b]).product.crawler_id,
                    u.rows[b].product.url,
                ) by {
                    assert(!has_key(
                        v.rows[a],
                        v.rows[b].product.crawler_id,
                        v.rows[b].product.url,
                    ));
                }
            }
            assert forall|i: int| 0 <= i < u.rows.len() implies {
                let row = #[trigger] u.rows[i];
                let j = last_with_key(products, row.product.crawler_id, row.product.url, k);
                if j >= 0 {
                    row.product == products[j] && row.updated_at == now
                } else {
                    i < t.rows.len() && row == t.rows[i]
                }
            } by {
                if i != at {
                    let row = v.rows[i];
                    if has_key(row, p.crawler_id, p.url) {
                        if i < at {
                            assert(!has_key(v.rows[i], p.crawler_id, p.url));
                        } else {
                            assert(!has_key(
                                v.rows[at],
                                v.rows[i].product.crawler_id,
                                v.rows[i].product.url,
                            ));
                        }
                    }
                    assert(u.rows[i] == v.rows[i]);
                }
            }
            assert forall|j: int| 0 <= j < k implies find(
                u.rows,
                (#[trigger] products[j]).crawler_id,
                products[j].url,
                0,
            ) < u.rows.len() by {
                let q = products[j];
                if j < k - 1 {
                    lemma_find(v.rows, q.crawler_id, q.url, 0);
                    let w = find(v.rows, q.crawler_id, q.url, 0);
                    assert(has_key(u.rows[w], q.crawler_id, q.url));
                } else {
                    assert(has_key(u.rows[at], q.crawler_id, q.url));
                }
                lemma_find(u.rows, q.crawler_id, q.url, 0);
            }
            if forall|j: int|
                0 <= j < k ==> find(
                    t.rows,
                    (#[trigger] products[j]).crawler_id,
                    products[j].url,
                    0,
                ) < t.rows.len() {
                assert forall|j: int| 0 <= j < k - 1 implies find(
                    t.rows,
                    (#[trigger] products[j]).crawler_id,
                    products[j].url,
                    0,
                ) < t.rows.len() by {}
            }
        } else {
            assert(u.rows == v.rows.push(new_row(v.next_id, p, now)));
            assert forall|i: int| 0 <= i < v.rows.len() implies !has_key(
                #[trigger] v.rows[i],
                p.crawler_id,
                p.url,
            ) by {}
            assert(unique_keys(u.rows)) by {
                assert forall|a: int, b: int| 0 <= a < b < u.rows.len() implies !has_key(
                    #[trigger] u.rows[a],
                    (#[trigger] u.rows[b]).product.crawler_id,
                    u.rows[b].product.url,
                ) by {
                    if b < v.rows.len() {
                        assert(!has_key(
                            v.rows[a],
                            v.rows[b].product.crawler_id,
                            v.rows[b].product.url,
                        ));
                    } else {
                        assert(!has_key(v.rows[a], p.crawler_id, p.url));
                    }
                }
            }
            assert forall|i: int| 0 <= i < u.rows.len() implies {
                let row = #[trigger] u.rows[i];
                let j = last_with_key(products, row.product.crawler_id, row.product.url, k);
                if j >= 0 {
                    row.product == products[j] && row.updated_at == now
                } else {
                    i < t.rows.len() && row == t.rows[i]
                }
            } by {
                if i < v.rows.len() {
                    assert(!has_key(v.rows[i], p.crawler_id, p.url));
                    assert(u.rows[i] == v.rows[i]);
                }
            }
            assert forall|j: int| 0 <= j < k implies find(
                u.rows,
                (#[trigger] products[j]).crawler_id,
                products[j].url,
                0,
            ) < u.rows.len() by {
                let q = products[j];
                if j < k - 1 {
                    lemma_find(v.rows, q.crawler_id, q.url, 0);
                    let w = find(v.rows, q.crawler_id, q.url, 0);
                    assert(has_key(u.rows[w], q.crawler_id, q.url));
                } else {
                    assert(has_key(u.rows[v.rows.len() as int], q.crawler_id, q.url));
                }
                lemma_find(u.rows, q.crawler_id, q.url, 0);
            }
            if forall|j: int|
                0 <= j < k ==> find(
                    t.rows,
                    (#[trigger] products[j]).crawler_id,
                    products[j].url,
                    0,
                ) < t.rows.len() {
                // The key of `p` has a row in `t`, and that row keeps its key.
                lemma_find(t.rows, p.crawler_id, p.url, 0);
                let w = find(t.rows, p.crawler_id, p.url, 0);
                assert(products[k - 1] == p);
                assert(w < t.rows.len());
                assert(has_key(v.rows[w], t.rows[w].product.crawler_id, t.rows[w].product.url));
                assert(has_key(v.rows[w], p.crawler_id, p.url));
                assert(false);
            }
        }
    }
}

/// Upserting keeps the identities apart: each row that is written over
/// keeps its identity, and each row that is inserted gets one that no row
/// has.
pub proof fn lemma_upserted_all_ids(t: ProductTable, products: Seq<ProductView>, now: i64, k: int)
    requires
        0 <= k <= products.len(),
        0 <= t.next_id,
        ids_below(t),
        unique_ids(t.rows),
        upserted_all(t, products, now, k).next_id <= i32::MAX + 1,
    ensures
        ids_below(upserted_all(t, products, now, k)),
        unique_ids(upserted_all(t, products, now, k).rows),
        t.next_id <= upserted_all(t, products, now, k).next_id,
    decreases k,
{
    if k > 0 {
        let v = upserted_all(t, products, now, k - 1);
        let u = upserted_all(t, products, now, k);
        let p = products[k - 1];
        assert(u == upserted(v, p, now));
        assert(v.next_id <= u.next_id);
        lemma_upserted_all_ids(t, products, now, k - 1);
        lemma_find(v.rows, p.crawler_id, p.url, 0);
        let at = find(v.rows, p.crawler_id, p.url, 0);
        if at < v.rows.len() {
            assert forall|i: int| 0 <= i < u.rows.len() implies (#[trigger] u.rows[i]).id
                == v.rows[i].id by {}
            assert forall|a: int, b: int| 0 <= a < b < u.rows.len() implies (
            #[trigger] u.rows[a]).id != (#[trigger] u.rows[b]).id by {
                assert(v.rows[a].id != v.rows[b].id);
            }
        } else {
            assert(u.rows == v.rows.push(new_row(v.next_id, p, now)));
            assert forall|a: int, b: int| 0 <= a < b < u.rows.len() implies (
            #[trigger] u.rows[a]).id != (#[trigger] u.rows[b]).id by {
                if b < v.rows.len() {
                    assert(v.rows[a].id != v.rows[b].id);
                } else {
                    assert(v.rows[a].id < v.next_id);
                }
            }
            assert forall|i: int| 0 <= i < u.rows.len() implies (#[trigger] u.rows[i]).id
                < u.next_id by {
                if i < v.rows.len() {
                    assert(v.rows[i].id < v.next_id);
                }
            }
        }
    }
}

/// No time goes back: where the time of an upsert is not before the time
/// of any stored row, every row that was there has afterwards a time that
/// is not before the one it had.
pub proof fn lemma_upsert_times_do_not_go_back(
    t: ProductTable,
    products: Seq<ProductView>,
    now: i64,
)
    requires
        unique_keys(t.rows),
        forall|i: int| 0 <= i < t.rows.len() ==> (#[trigger] t.rows[i]).updated_at <= now,
    ensures
        ({
            let u = upserted_all(t, products, now, products.len() as int);
            forall|i: int|
                0 <= i < t.rows.len() ==> t.rows[i].updated_at <= (#[trigger] u.rows[i]).updated_at
        }),
{
    lemma_upserted_all(t, products, now, products.len() as int);
}

/// Upserting more products uses up no fewer identities.
pub proof fn lemma_next_id_grows(
    t: ProductTable,
    products: Seq<ProductView>,
    now: i64,
    k: int,
    n: int,
)
    requires
        0 <= k <= n,
    ensures
        upserted_all(t, products, now, k).next_id <= upserted_all(t, products, now, n).next_id,
    decreases n - k,
{
    if k < n {
        lemma_next_id_grows(t, products, now, k, n - 1);
    }
}

/// Upserting the same products a second time changes nothing but the time
/// of the rows that it writes, and that time does not go back: the table
/// has the same rows, with the same identities and the same fields, and no
/// identity is used up at any point, so that the second upsert succeeds
/// wherever the first did.
pub proof fn lemma_upsert_idempotent(
    t: ProductTable,
    products: Seq<ProductView>,
    first: i64,
    second: i64,
)
    requires
        unique_keys(t.rows),
        first <= second,
    ensures
        ({
            let once = upserted_all(t, products, first, products.len() as int);
            let twice = upserted_all(once, products, second, products.len() as int);
            &&& twice.rows.len() == once.rows.len()
            &&& twice.next_id == once.next_id
            &&& forall|j: int|
                0 <= j <= products.len() ==> (#[trigger] upserted_all(
                    once,
                    products,
                    second,
                    j,
                )).next_id == once.next_id
            &&& forall|i: int|
                0 <= i < once.rows.len() ==> (#[trigger] twice.rows[i]) == (ProductRowView {
                    updated_at: twice.rows[i].updated_at,
                    ..once.rows[i]
                }) && once.rows[i].updated_at <= twice.rows[i].updated_at
        }),
{
    let n = products.len() as int;
    let once = upserted_all(t, products, first, n);
    let twice = upserted_all(once, products, second, n);
    lemma_upserted_all(t, products, first, n);
    lemma_upserted_all(once, products, second, n);
    assert forall|i: int| 0 <= i < once.rows.len() implies (#[trigger] twice.rows[i]) == (
    ProductRowView { updated_at: twice.rows[i].updated_at, ..once.rows[i] })
        && once.rows[i].updated_at <= twice.rows[i].updated_at by {
        let a = once.rows[i];
        let b = twice.rows[i];
        assert(has_key(b, a.product.crawler_id, a.product.url));
    }
    assert forall|j: int| 0 <= j <= products.len() implies (#[trigger] upserted_all(
        once,
        products,
        second,
        j,
    )).next_id == once.next_id by {
        lemma_next_id_grows(once, products, second, 0, j);
        lemma_next_id_grows(once, products, second, j, n);
    }
}

/// An automatic assignment changes no row whose category was set by an
/// operator: its category and its source stay, and so does all else.
pub proof fn lemma_manual_assignment_stays(
    rows: Seq<ProductRowView>,
    product_id: i32,
    category: Option<i32>,
    now: i64,
    i: int,
)
    requires
        0 <= i < rows.len(),
        rows[i].category_assignment_source == CategoryAssignmentSource::Manual,
    ensures
        assigned(rows, product_id, category, now).len() == rows.len(),
        assigned(rows, product_id, category, now)[i] == rows[i],
{
}

/// An automatic assignment to a product that is not stored, or whose
/// category was set by an operator, writes no row: its count is zero.
pub proof fn lemma_manual_or_unknown_writes_nothing(
    rows: Seq<ProductRowView>,
    product_id: i32,
    k: int,
)
    requires
        0 <= k <= rows.len(),
        forall|i: int|
            0 <= i < rows.len() && (#[trigger] rows[i]).id == product_id
                ==> rows[i].category_assignment_source == CategoryAssignmentSource::Manual,
    ensures
        rows_assigned(rows, product_id, false, k) == 0,
    decreases k,
{
    if k > 0 {
        lemma_manual_or_unknown_writes_nothing(rows, product_id, k - 1);
    }
}

/// An automatic assignment to a stored product whose category was not set
/// by an operator writes one row.
pub proof fn lemma_automatic_writes_one(rows: Seq<ProductRowView>, product_id: i32, at: int, k: int)
    requires
        unique_ids(rows),
        0 <= at < rows.len(),
        0 <= k <= rows.len(),
        rows[at].id == product_id,
        rows[at].category_assignment_source != CategoryAssignmentSource::Manual,
    ensures
        rows_assigned(rows, product_id, false, k) == (if at < k {
            1int
        } else {
            0int
        }),
    decreases k,
{
    if k > 0 {
        lemma_automatic_writes_one(rows, product_id, at, k - 1);
    }
}

/// An automatic assignment changes no other product.
pub proof fn lemma_assignment_touches_one(
    rows: Seq<ProductRowView>,
    product_id: i32,
    category: Option<i32>,
    now: i64,
    i: int,
)
    requires
        0 <= i < rows.len(),
        rows[i].id != product_id,
    ensures
        assigned(rows, product_id, category, now)[i] == rows[i],
{
}

/// After `marked(.., true)` the tenant is active where it has a row, and
/// after `marked(.., false)` it is not; another tenant is as it was.
pub proof fn lemma_marked(rows: Seq<FlagRow>, hub_id: i32, processing: bool, other: i32)
    ensures
        present(rows, hub_id) && processing ==> active(marked(rows, hub_id, processing), hub_id),
        !processing ==> !active(marked(rows, hub_id, processing), hub_id),
        other != hub_id ==> active(marked(rows, hub_id, processing), other) == active(
            rows,
            other,
        ),
{
    let after = marked(rows, hub_id, processing);
    if present(rows, hub_id) && processing {
        let i = choose|i: int| 0 <= i < rows.len() && (#[trigger] rows[i]).hub_id == hub_id;
        assert(after[i].hub_id == hub_id && after[i].processing);
    }
    if !processing && active(after, hub_id) {
        let i = choose|i: int|
            0 <= i < after.len() && (#[trigger] after[i]).hub_id == hub_id && after[i].processing;
        assert(rows[i].hub_id == hub_id);
    }
    if other != hub_id {
        if active(rows, other) {
            let i = choose|i: int|
                0 <= i < rows.len() && (#[trigger] rows[i]).hub_id == other && rows[i].processing;
            assert(after[i].hub_id == other && after[i].processing);
        }
        if active(after, other) {
            let i = choose|i: int|
                0 <= i < after.len() && (#[trigger] after[i]).hub_id == other
                    && after[i].processing;
            assert(rows[i].hub_id == other && rows[i].processing);
        }
    }
}

/// Of two claims of the lock of a tenant that has a crawler or a
/// benchmark, with no release between them, exactly one is granted: after
/// a granted claim the next is refused, and changes nothing.
pub proof fn lemma_lock_excludes(t: LockTable, hub_id: i32)
    requires
        present(t.crawlers, hub_id) || present(t.benchmarks, hub_id),
        claimed(t, hub_id).1,
    ensures
        claimed(claimed(t, hub_id).0, hub_id) == (claimed(t, hub_id).0, false),
{
    lemma_marked(t.crawlers, hub_id, true, hub_id);
    lemma_marked(t.benchmarks, hub_id, true, hub_id);
}

/// Of two guarded runs for a tenant that has a crawler or a benchmark, none
/// of them marked, that claim the lock one after the other with no release
/// between them: the first is granted the lock and runs its job; the
/// second is refused, changes no mark, does not run its job and gives
/// `Ok(None)`.
pub proof fn lemma_guarded_runs_exclude(t: LockTable, hub_id: i32)
    requires
        present(t.crawlers, hub_id) || present(t.benchmarks, hub_id),
        !any_processing(t, hub_id),
    ensures
        ({
            let (held, first) = claimed(t, hub_id);
            let (after, second) = claimed(held, hub_id);
            &&& first && !second
            &&& after == held
            &&& guard_next(GuardPhase::Claiming, GuardEvent::Claimed(first)).1 is RunJob
            &&& guard_next(GuardPhase::Claiming, GuardEvent::Claimed(second)) == finished(
                GuardOutcome::Skipped,
            )
            &&& guard_result_of::<()>(GuardOutcome::Skipped, None) == Ok::<Option<()>, ()>(None)
        }),
{
    lemma_lock_excludes(t, hub_id);
}

/// A claim that is refused changes nothing.
pub proof fn lemma_refused_claim_changes_nothing(t: LockTable, hub_id: i32)
    requires
        !claimed(t, hub_id).1,
    ensures
        claimed(t, hub_id).0 == t,
{
}

/// The lock of one tenant does not touch another: whether a job of the
/// other tenant runs is the same before and after a claim and a release.
pub proof fn lemma_lock_leaves_others(t: LockTable, hub_id: i32, other: i32)
    requires
        other != hub_id,
    ensures
        any_processing(claimed(t, hub_id).0, other) == any_processing(t, other),
        any_processing(released(t, hub_id), other) == any_processing(t, other),
{
    lemma_marked(t.crawlers, hub_id, true, other);
    lemma_marked(t.benchmarks, hub_id, true, other);
    lemma_marked(t.crawlers, hub_id, false, other);
    lemma_marked(t.benchmarks, hub_id, false, other);
}

/// After a release the lock can be claimed again.
pub proof fn lemma_release_frees(t: LockTable, hub_id: i32)
    ensures
        !any_processing(released(t, hub_id), hub_id),
        claimed(released(t, hub_id), hub_id).1,
{
    lemma_marked(t.crawlers, hub_id, false, hub_id);
    lemma_marked(t.benchmarks, hub_id, false, hub_id);
}

} // verus!

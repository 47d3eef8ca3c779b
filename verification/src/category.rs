//! Category matching: every product of a tenant is assigned to the nearest
//! category of the tenant's directory, where that is similar enough.
//!
//! The job is a state machine. It asks for one thing at a time (a list
//! from the store, a vector, the nearest category, a write) and decides from
//! what came back what to ask for next. Products and categories are
//! numbered in the order in which they were listed.

use vstd::prelude::*;
use vstd::string::*;
use crate::matching::{assign_category, assignment_of, Assignment, Hit};

verus! {

/// The text that is embedded for an entry of the category directory: the
/// category's name, unchanged.
pub fn category_prompt(name: &str) -> (prompt: String)
    ensures
        prompt@ == name@,
{
    String::from_str(name)
}

/// The counts that a category matching reports.
#[derive(Clone, Copy, Debug, PartialEq, Eq)]
pub struct MatchStats {
    pub categories_loaded: usize,
    pub products_loaded: usize,
    pub category_embeddings_generated: usize,
    pub product_embeddings_generated: usize,
    pub matched: usize,
    pub unmatched: usize,
    pub skipped_below_threshold: usize,
    pub skipped_invalid_category_id: usize,
    pub skipped_no_category_candidate: usize,
}

/// Where a category matching stands.
#[derive(Clone, Copy, Debug, PartialEq, Eq)]
pub enum MatchPhase {
    /// The embedding model is being set up.
    Initializing,
    /// The tenant's crawlers are being listed.
    ListingCrawlers,
    /// The products of one crawler are being listed.
    ListingProducts,
    /// The tenant's categories are being listed.
    ListingCategories,
    /// The vector of one category is being loaded or generated.
    EmbeddingCategory,
    /// The vector of one product is being loaded or generated.
    EmbeddingProduct,
    /// The nearest category of one product is being searched.
    Searching,
    /// The assignment of one product is being written; the flag says
    /// whether it names a category.
    Assigning(bool),
    /// The job is over; the flag says whether it succeeded.
    Finished(bool),
}

/// The state of a category matching.
#[derive(Clone, Copy, Debug, PartialEq, Eq)]
pub struct MatchState {
    pub phase: MatchPhase,
    /// The number of the tenant's crawlers.
    pub crawlers: usize,
    /// The crawler whose products are listed next.
    pub crawler: usize,
    /// The category whose vector is asked for next.
    pub category: usize,
    /// The product that is worked on.
    pub product: usize,
    pub stats: MatchStats,
}

/// What came back from the last thing the job asked for.
#[derive(Clone, Copy, Debug, PartialEq, Eq)]
pub enum MatchEvent {
    /// It was done.
    Done,
    /// It failed.
    Failed,
    /// The number of records that were listed.
    Count(usize),
    /// A vector is there; the flag says whether it had to be generated.
    Embedding(bool),
    /// The nearest category, if there is any.
    Nearest(Option<Hit>),
}

/// What the job asks for next.
#[derive(Clone, Copy, Debug, PartialEq, Eq)]
pub enum MatchAction {
    InitEmbedder,
    ListCrawlers,
    /// List the products of the crawler with this number and add them to
    /// the products.
    ListProducts(usize),
    ListCategories,
    /// Load or generate the vector of the category with this number.
    EmbedCategory(usize),
    /// Load or generate the vector of the product with this number.
    EmbedProduct(usize),
    /// Search the category nearest to the product with this number.
    FindCategory(usize),
    /// Set the category of the product with this number, as an automatic
    /// assignment; `None` clears it.
    AssignCategory(usize, Option<i32>),
    /// The job is over: with these counts, or with a failure.
    Finish(Option<MatchStats>),
}

/// The number after `x`; `x` itself where there is none.
pub open spec fn succ(x: usize) -> usize {
    if x < usize::MAX {
        (x + 1) as usize
    } else {
        x
    }
}

/// `x`, or the number after it.
pub open spec fn succ_if(counts: bool, x: usize) -> usize {
    if counts {
        succ(x)
    } else {
        x
    }
}

/// The counts of a job that has loaded nothing yet.
pub open spec fn no_stats() -> MatchStats {
    MatchStats {
        categories_loaded: 0,
        products_loaded: 0,
        category_embeddings_generated: 0,
        product_embeddings_generated: 0,
        matched: 0,
        unmatched: 0,
        skipped_below_threshold: 0,
        skipped_invalid_category_id: 0,
        skipped_no_category_candidate: 0,
    }
}

/// The state in which a job starts.
pub open spec fn match_initial() -> MatchState {
    MatchState {
        phase: MatchPhase::Initializing,
        crawlers: 0,
        crawler: 0,
        category: 0,
        product: 0,
        stats: no_stats(),
    }
}

/// The job fails.
pub open spec fn failed(s: MatchState) -> (MatchState, MatchAction) {
    (MatchState { phase: MatchPhase::Finished(false), ..s }, MatchAction::Finish(None))
}

/// The job turns to the categories.
pub open spec fn to_categories(s: MatchState) -> (MatchState, MatchAction) {
    (MatchState { phase: MatchPhase::ListingCategories, ..s }, MatchAction::ListCategories)
}

/// The job turns to the product `s.product`, or ends where no product is
/// left.
pub open spec fn to_product(s: MatchState) -> (MatchState, MatchAction) {
    if s.product < s.stats.products_loaded {
        (
            MatchState { phase: MatchPhase::EmbeddingProduct, ..s },
            MatchAction::EmbedProduct(s.product),
        )
    } else {
        (MatchState { phase: MatchPhase::Finished(true), ..s }, MatchAction::Finish(Some(s.stats)))
    }
}

/// The job writes that the product `s.product` has no category.
pub open spec fn to_clearing(s: MatchState, stats: MatchStats) -> (MatchState, MatchAction) {
    (
        MatchState { phase: MatchPhase::Assigning(false), stats, ..s },
        MatchAction::AssignCategory(s.product, None),
    )
}

/// The job's next state and request, from its state and what came back.
///
/// The products of all crawlers are listed, then the categories. Each
/// category gets its vector. Then each product in turn gets its vector, the
/// nearest category is searched, and the product's assignment is written:
/// the nearest category where it is similar enough and its key is an
/// identity, and no category otherwise. With no categories nothing is
/// searched and every product's assignment is cleared. A failure of
/// any request, or an answer that does not fit the request, ends the job.
pub open spec fn match_next(s: MatchState, e: MatchEvent) -> (MatchState, MatchAction) {
    match (s.phase, e) {
        (MatchPhase::Initializing, MatchEvent::Done) => (
            MatchState { phase: MatchPhase::ListingCrawlers, ..s },
            MatchAction::ListCrawlers,
        ),
        (MatchPhase::ListingCrawlers, MatchEvent::Count(n)) => if n == 0 {
            to_categories(MatchState { crawlers: 0, crawler: 0, ..s })
        } else {
            (
                MatchState { phase: MatchPhase::ListingProducts, crawlers: n, crawler: 0, ..s },
                MatchAction::ListProducts(0),
            )
        },
        (MatchPhase::ListingProducts, MatchEvent::Count(n)) => if s.stats.products_loaded + n
            > usize::MAX {
            failed(s)
        } else {
            let stats = MatchStats {
                products_loaded: (s.stats.products_loaded + n) as usize,
                ..s.stats
            };
            let t = MatchState { crawler: succ(s.crawler), stats, ..s };
            if t.crawler < t.crawlers {
                (t, MatchAction::ListProducts(t.crawler))
            } else {
                to_categories(t)
            }
        },
        (MatchPhase::ListingCategories, MatchEvent::Count(n)) => {
            let stats = MatchStats { categories_loaded: n, ..s.stats };
            let t = MatchState { category: 0, product: 0, stats, ..s };
            if n == 0 {
                to_product(t)
            } else {
                (
                    MatchState { phase: MatchPhase::EmbeddingCategory, ..t },
                    MatchAction::EmbedCategory(0),
                )
            }
        },
        (MatchPhase::EmbeddingCategory, MatchEvent::Embedding(generated)) => {
            let stats = MatchStats {
                category_embeddings_generated: succ_if(
                    generated,
                    s.stats.category_embeddings_generated,
                ),
                ..s.stats
            };
            let t = MatchState { category: succ(s.category), stats, ..s };
            if t.category < t.stats.categories_loaded {
                (t, MatchAction::EmbedCategory(t.category))
            } else {
                to_product(t)
            }
        },
        (MatchPhase::EmbeddingProduct, MatchEvent::Embedding(generated)) => {
            let stats = MatchStats {
                product_embeddings_generated: succ_if(
                    generated,
                    s.stats.product_embeddings_generated,
                ),
                ..s.stats
            };
            if stats.categories_loaded == 0 {
                to_clearing(
                    s,
                    MatchStats {
                        skipped_no_category_candidate: succ(stats.skipped_no_category_candidate),
                        ..stats
                    },
                )
            } else {
                (
                    MatchState { phase: MatchPhase::Searching, stats, ..s },
                    MatchAction::FindCategory(s.product),
                )
            }
        },
        (MatchPhase::Searching, MatchEvent::Nearest(hit)) => match assignment_of(hit) {
            Assignment::Assigned(id) => (
                MatchState { phase: MatchPhase::Assigning(true), ..s },
                MatchAction::AssignCategory(s.product, Some(id)),
            ),
            Assignment::BelowThreshold => to_clearing(
                s,
                MatchStats {
                    skipped_below_threshold: succ(s.stats.skipped_below_threshold),
                    ..s.stats
                },
            ),
            Assignment::InvalidId => to_clearing(
                s,
                MatchStats {
                    skipped_invalid_category_id: succ(s.stats.skipped_invalid_category_id),
                    ..s.stats
                },
            ),
            Assignment::NoCandidate => to_clearing(
                s,
                MatchStats {
                    skipped_no_category_candidate: succ(s.stats.skipped_no_category_candidate),
                    ..s.stats
                },
            ),
        },
        (MatchPhase::Assigning(assigned), MatchEvent::Done) => {
            let stats = MatchStats {
                matched: succ_if(assigned, s.stats.matched),
                unmatched: succ_if(!assigned, s.stats.unmatched),
                ..s.stats
            };
            to_product(MatchState { product: succ(s.product), stats, ..s })
        },
        (MatchPhase::Finished(ok), _) => (
            s,
            MatchAction::Finish(
                if ok {
                    Some(s.stats)
                } else {
                    None
                },
            ),
        ),
        _ => failed(s),
    }
}

/// The number of products whose vector is there.
pub open spec fn embedded_products(s: MatchState) -> int {
    if s.phase is Searching || s.phase is Assigning {
        s.product + 1
    } else {
        s.product as int
    }
}

/// The number of products whose assignment has been decided.
pub open spec fn decided_products(s: MatchState) -> int {
    if s.phase is Assigning {
        s.product + 1
    } else {
        s.product as int
    }
}

/// The number of products for which it was decided that they have no
/// category.
pub open spec fn skipped(stats: MatchStats) -> int {
    stats.skipped_below_threshold + stats.skipped_invalid_category_id
        + stats.skipped_no_category_candidate
}

/// What holds of the counts in every state that a job reaches.
///
/// Every product that was worked on counts as matched or as unmatched, and
/// every unmatched one was skipped for one reason. No more vectors were
/// generated than records were worked on. Without categories no product is
/// matched. A job that ends well has worked on every product. Of a job
/// that has failed nothing is said.
pub open spec fn counts_hold(s: MatchState) -> bool {
    s.phase == MatchPhase::Finished(false) || running_counts_hold(s)
}

/// What holds of the counts while a job has not failed.
pub open spec fn running_counts_hold(s: MatchState) -> bool {
    let stats = s.stats;
    &&& s.product <= stats.products_loaded
    &&& (s.phase is EmbeddingProduct || s.phase is Searching || s.phase is Assigning ==> s.product
        < stats.products_loaded)
    &&& (s.phase is Initializing || s.phase is ListingCrawlers || s.phase is ListingProducts
        || s.phase is ListingCategories ==> s.product == 0 && s.category == 0
        && stats.categories_loaded == 0)
    &&& (s.phase is ListingProducts ==> s.crawler < s.crawlers)
    &&& (s.phase is EmbeddingCategory ==> s.category < stats.categories_loaded && s.product == 0)
    &&& s.category <= stats.categories_loaded
    &&& stats.category_embeddings_generated <= s.category
    &&& stats.product_embeddings_generated <= embedded_products(s)
    &&& stats.matched + stats.unmatched == s.product
    &&& stats.unmatched + (if s.phase == MatchPhase::Assigning(false) {
        1int
    } else {
        0int
    }) == skipped(stats)
    &&& (stats.categories_loaded == 0 ==> stats.matched == 0 && s.phase != MatchPhase::Assigning(
        true,
    ) && s.phase !is Searching)
    &&& (s.phase == MatchPhase::Finished(true) ==> s.product == stats.products_loaded)
}

/// The counts hold at the start and after every step. A job that ends well
/// reports counts in which every loaded product is matched or unmatched.
pub proof fn lemma_counts_hold(s: MatchState, e: MatchEvent)
    requires
        counts_hold(s),
    ensures
        counts_hold(match_initial()),
        counts_hold(match_next(s, e).0),
        match_next(s, e).1 matches MatchAction::Finish(Some(stats)) ==> stats.matched
            + stats.unmatched == stats.products_loaded && stats.unmatched == skipped(stats),
{
}

/// With no categories, no category is searched and no product is assigned
/// to a category: whatever is written clears the product's assignment.
pub proof fn lemma_no_categories_clear_all(s: MatchState, e: MatchEvent)
    requires
        counts_hold(s),
        s.stats.categories_loaded == 0,
        !(s.phase is ListingCategories),
    ensures
        match_next(s, e).0.stats.categories_loaded == 0,
        !(match_next(s, e).1 is FindCategory),
        !(match_next(s, e).1 is EmbedCategory),
        match_next(s, e).1 matches MatchAction::AssignCategory(_, category) ==> category is None,
        match_next(s, e).1 matches MatchAction::Finish(Some(stats)) ==> stats.matched == 0
            && stats.unmatched == stats.products_loaded,
{
}

/// Every product in turn is written exactly once: an assignment is asked
/// for only for the product that is worked on, and once it is written the
/// job turns to the next product.
pub proof fn lemma_each_product_assigned(s: MatchState, e: MatchEvent)
    requires
        counts_hold(s),
    ensures
        match_next(s, e).1 matches MatchAction::AssignCategory(product, _) ==> product
            == s.product && product < s.stats.products_loaded && !(s.phase is Assigning),
        s.phase is Assigning && e is Done ==> match_next(s, e).0.product == s.product + 1,
        !(s.phase is Assigning && e is Done) && !(s.phase is ListingCategories) ==> match_next(
            s,
            e,
        ).0.product == s.product,
{
}

/// The state of a job after the first `k` of the answers that it gets.
pub open spec fn state_after(events: Seq<MatchEvent>, k: int) -> MatchState
    decreases k,
{
    if k <= 0 {
        match_initial()
    } else {
        match_next(state_after(events, k - 1), events[k - 1]).0
    }
}

/// The request that a job makes after the first `k` of the answers that it
/// gets.
pub open spec fn action_after(events: Seq<MatchEvent>, k: int) -> MatchAction {
    if k <= 0 {
        MatchAction::InitEmbedder
    } else {
        match_next(state_after(events, k - 1), events[k - 1]).1
    }
}

/// The assignments that a job has asked for after the first `k` of the
/// answers that it gets, in order: for each the product and the category.
pub open spec fn assignments_after(events: Seq<MatchEvent>, k: int) -> Seq<(usize, Option<i32>)>
    decreases k,
{
    if k <= 0 {
        Seq::empty()
    } else {
        match action_after(events, k) {
            MatchAction::AssignCategory(product, category) => assignments_after(
                events,
                k - 1,
            ).push((product, category)),
            _ => assignments_after(events, k - 1),
        }
    }
}

/// What holds of the assignments asked for so far: there is one for each
/// product whose assignment has been decided, in the order of the products,
/// and without categories each of them clears.
pub open spec fn assignments_hold(s: MatchState, asked: Seq<(usize, Option<i32>)>) -> bool {
    &&& asked.len() == decided_products(s)
    &&& forall|i: int| 0 <= i < asked.len() ==> (#[trigger] asked[i]).0 == i
    &&& (s.stats.categories_loaded == 0 ==> forall|i: int|
        0 <= i < asked.len() ==> (#[trigger] asked[i]).1 is None)
}

/// A job that has failed stays failed.
pub proof fn lemma_failure_stays(events: Seq<MatchEvent>, j: int, k: int)
    requires
        0 <= j <= k <= events.len(),
        state_after(events, j).phase == MatchPhase::Finished(false),
    ensures
        state_after(events, k).phase == MatchPhase::Finished(false),
    decreases k - j,
{
    if j < k {
        lemma_failure_stays(events, j, k - 1);
    }
}

/// While a job has not failed, the counts hold and there is one assignment
/// for each product decided.
pub proof fn lemma_run_holds(events: Seq<MatchEvent>, k: int)
    requires
        0 <= k <= events.len(),
        state_after(events, k).phase != MatchPhase::Finished(false),
    ensures
        running_counts_hold(state_after(events, k)),
        assignments_hold(state_after(events, k), assignments_after(events, k)),
    decreases k,
{
    if k > 0 {
        let s = state_after(events, k - 1);
        if s.phase == MatchPhase::Finished(false) {
            lemma_failure_stays(events, k - 1, k);
        }
        lemma_run_holds(events, k - 1);
        lemma_counts_hold(s, events[k - 1]);
    }
}

/// A job that ends well has asked for exactly one assignment for each
/// product that it loaded, product by product. Where the tenant has no
/// category, every one of them clears the product's category: the job sets
/// none.
pub proof fn lemma_every_product_is_assigned(events: Seq<MatchEvent>, k: int, stats: MatchStats)
    requires
        0 <= k <= events.len(),
        action_after(events, k) == MatchAction::Finish(Some(stats)),
    ensures
        assignments_after(events, k).len() == stats.products_loaded,
        forall|i: int|
            0 <= i < stats.products_loaded ==> (#[trigger] assignments_after(events, k)[i]).0 == i,
        stats.categories_loaded == 0 ==> forall|i: int|
            0 <= i < stats.products_loaded ==> (#[trigger] assignments_after(events, k)[i]).1
                is None,
        stats.matched + stats.unmatched == stats.products_loaded,
{
    if k > 0 {
        let s = state_after(events, k - 1);
        assert(s.phase != MatchPhase::Finished(false));
        lemma_run_holds(events, k - 1);
        lemma_counts_hold(s, events[k - 1]);
        let t = state_after(events, k);
        assert(t.phase == MatchPhase::Finished(true));
        assert(t.stats == stats);
        lemma_run_holds(events, k);
    }
}

/// The number after `x`; `x` itself where there is none.
fn next_number(x: usize) -> (r: usize)
    ensures
        r == succ(x),
{
    if x < usize::MAX {
        x + 1
    } else {
        x
    }
}

/// Ends the job with a failure.
fn fail(s: MatchState) -> (r: (MatchState, MatchAction))
    ensures
        r == failed(s),
{
    (MatchState { phase: MatchPhase::Finished(false), ..s }, MatchAction::Finish(None))
}

/// Turns to the categories.
fn turn_to_categories(s: MatchState) -> (r: (MatchState, MatchAction))
    ensures
        r == to_categories(s),
{
    (MatchState { phase: MatchPhase::ListingCategories, ..s }, MatchAction::ListCategories)
}

/// Turns to the product `s.product`, or ends the job.
fn turn_to_product(s: MatchState) -> (r: (MatchState, MatchAction))
    ensures
        r == to_product(s),
{
    if s.product < s.stats.products_loaded {
        (
            MatchState { phase: MatchPhase::EmbeddingProduct, ..s },
            MatchAction::EmbedProduct(s.product),
        )
    } else {
        (MatchState { phase: MatchPhase::Finished(true), ..s }, MatchAction::Finish(Some(s.stats)))
    }
}

/// Asks to clear the category of the product `s.product`.
fn turn_to_clearing(s: MatchState, stats: MatchStats) -> (r: (MatchState, MatchAction))
    ensures
        r == to_clearing(s, stats),
{
    (
        MatchState { phase: MatchPhase::Assigning(false), stats, ..s },
        MatchAction::AssignCategory(s.product, None),
    )
}

/// The start of a category matching: the first state and the first
/// request.
pub fn match_start() -> (r: (MatchState, MatchAction))
    ensures
        r == (match_initial(), MatchAction::InitEmbedder),
{
    let stats = MatchStats {
        categories_loaded: 0,
        products_loaded: 0,
        category_embeddings_generated: 0,
        product_embeddings_generated: 0,
        matched: 0,
        unmatched: 0,
        skipped_below_threshold: 0,
        skipped_invalid_category_id: 0,
        skipped_no_category_candidate: 0,
    };
    (
        MatchState {
            phase: MatchPhase::Initializing,
            crawlers: 0,
            crawler: 0,
            category: 0,
            product: 0,
            stats,
        },
        MatchAction::InitEmbedder,
    )
}

/// One step of a category matching.
pub fn process_product_category_match(s: MatchState, e: MatchEvent) -> (r: (
    MatchState,
    MatchAction,
))
    ensures
        r == match_next(s, e),
{
    match (s.phase, e) {
        (MatchPhase::Initializing, MatchEvent::Done) => (
            MatchState { phase: MatchPhase::ListingCrawlers, ..s },
            MatchAction::ListCrawlers,
        ),
        (MatchPhase::ListingCrawlers, MatchEvent::Count(n)) => {
            if n == 0 {
                turn_to_categories(MatchState { crawlers: 0, crawler: 0, ..s })
            } else {
                (
                    MatchState {
                        phase: MatchPhase::ListingProducts,
                        crawlers: n,
                        crawler: 0,
                        ..s
                    },
                    MatchAction::ListProducts(0),
                )
            }
        },
        (MatchPhase::ListingProducts, MatchEvent::Count(n)) => {
            if n > usize::MAX - s.stats.products_loaded {
                fail(s)
            } else {
                let stats = MatchStats { products_loaded: s.stats.products_loaded + n, ..s.stats };
                let t = MatchState { crawler: next_number(s.crawler), stats, ..s };
                if t.crawler < t.crawlers {
                    (t, MatchAction::ListProducts(t.crawler))
                } else {
                    turn_to_categories(t)
                }
            }
        },
        (MatchPhase::ListingCategories, MatchEvent::Count(n)) => {
            let stats = MatchStats { categories_loaded: n, ..s.stats };
            let t = MatchState { category: 0, product: 0, stats, ..s };
            if n == 0 {
                turn_to_product(t)
            } else {
                (
                    MatchState { phase: MatchPhase::EmbeddingCategory, ..t },
                    MatchAction::EmbedCategory(0),
                )
            }
        },
        (MatchPhase::EmbeddingCategory, MatchEvent::Embedding(generated)) => {
            let count = if generated {
                next_number(s.stats.category_embeddings_generated)
            } else {
                s.stats.category_embeddings_generated
            };
            let stats = MatchStats { category_embeddings_generated: count, ..s.stats };
            let t = MatchState { category: next_number(s.category), stats, ..s };
            if t.category < t.stats.categories_loaded {
                (t, MatchAction::EmbedCategory(t.category))
            } else {
                turn_to_product(t)
            }
        },
        (MatchPhase::EmbeddingProduct, MatchEvent::Embedding(generated)) => {
            let count = if generated {
                next_number(s.stats.product_embeddings_generated)
            } else {
                s.stats.product_embeddings_generated
            };
            let stats = MatchStats { product_embeddings_generated: count, ..s.stats };
            if stats.categories_loaded == 0 {
                turn_to_clearing(
                    s,
                    MatchStats {
                        skipped_no_category_candidate: next_number(
                            stats.skipped_no_category_candidate,
                        ),
                        ..stats
                    },
                )
            } else {
                (
                    MatchState { phase: MatchPhase::Searching, stats, ..s },
                    MatchAction::FindCategory(s.product),
                )
            }
        },
        (MatchPhase::Searching, MatchEvent::Nearest(hit)) => match assign_category(hit) {
            Assignment::Assigned(id) => (
                MatchState { phase: MatchPhase::Assigning(true), ..s },
                MatchAction::AssignCategory(s.product, Some(id)),
            ),
            Assignment::BelowThreshold => turn_to_clearing(
                s,
                MatchStats {
                    skipped_below_threshold: next_number(s.stats.skipped_below_threshold),
                    ..s.stats
                },
            ),
            Assignment::InvalidId => turn_to_clearing(
                s,
                MatchStats {
                    skipped_invalid_category_id: next_number(s.stats.skipped_invalid_category_id),
                    ..s.stats
                },
            ),
            Assignment::NoCandidate => turn_to_clearing(
                s,
                MatchStats {
                    skipped_no_category_candidate: next_number(
                        s.stats.skipped_no_category_candidate,
                    ),
                    ..s.stats
                },
            ),
        },
        (MatchPhase::Assigning(assigned), MatchEvent::Done) => {
            let matched = if assigned { next_number(s.stats.matched) } else { s.stats.matched };
            let unmatched = if assigned {
                s.stats.unmatched
            } else {
                next_number(s.stats.unmatched)
            };
            let stats = MatchStats { matched, unmatched, ..s.stats };
            turn_to_product(MatchState { product: next_number(s.product), stats, ..s })
        },
        (MatchPhase::Finished(ok), _) => (
            s,
            MatchAction::Finish(if ok { Some(s.stats) } else { None }),
        ),
        _ => fail(s),
    }
}

} // verus!

//! Benchmark matching: a benchmark is compared with the products of every
//! crawler of its tenant, and the nearest products that are similar enough
//! are linked to it.
//!
//! The job is a state machine. It asks for one thing at a time and decides
//! from what came back what to ask for next. Crawlers, products and links
//! are numbered in the order in which they were listed or chosen.

use vstd::prelude::*;
use crate::matching::TOP_K;

verus! {

/// How a benchmark matching ended.
#[derive(Clone, Copy, Debug, PartialEq, Eq)]
pub enum BenchmarkOutcome {
    /// The benchmark was being matched already: nothing was done.
    AlreadyRunning,
    /// A request failed.
    Failed,
    /// The job ran through and wrote this many links.
    Completed(usize),
}

/// Where a benchmark matching stands.
#[derive(Clone, Copy, Debug, PartialEq, Eq)]
pub enum BenchmarkPhase {
    /// The benchmark is being loaded.
    Loading,
    /// The benchmark is being marked as processing.
    Marking,
    /// The embedding model is being set up.
    Initializing,
    /// The benchmark's vector is being loaded or generated.
    EmbeddingBenchmark,
    /// The crawlers of the benchmark's tenant are being listed.
    ListingCrawlers,
    /// The benchmark's links are being removed.
    Removing,
    /// The products of one crawler are being listed.
    ListingProducts,
    /// The vector of one product is being loaded or generated.
    EmbeddingProduct,
    /// The products nearest to the benchmark are being searched among
    /// those of one crawler, and the links to write are being chosen.
    Searching,
    /// One link is being written.
    Writing,
    /// The benchmark's statistics are being updated, which takes the mark
    /// back; the flag says whether the job ran through.
    UpdatingStats(bool),
    /// The job is over.
    Finished(BenchmarkOutcome),
}

/// The state of a benchmark matching.
#[derive(Clone, Copy, Debug, PartialEq, Eq)]
pub struct BenchmarkState {
    pub phase: BenchmarkPhase,
    /// Whether a job that fails after it marked the benchmark still updates
    /// the statistics, and so takes the mark back.
    pub reset_on_failure: bool,
    /// The number of crawlers of the tenant.
    pub crawlers: usize,
    /// The crawler that is worked on.
    pub crawler: usize,
    /// The number of products of that crawler.
    pub products: usize,
    /// The product whose vector is asked for next.
    pub product: usize,
    /// The number of links chosen for that crawler.
    pub links: usize,
    /// The link that is written next.
    pub link: usize,
    /// The number of links written so far.
    pub written: usize,
}

/// What came back from the last thing the job asked for.
#[derive(Clone, Copy, Debug, PartialEq, Eq)]
pub enum BenchmarkEvent {
    /// The benchmark was loaded; the flag says whether it is marked as
    /// processing.
    Loaded(bool),
    /// It was done.
    Done,
    /// It failed.
    Failed,
    /// The number of records that were listed.
    Count(usize),
    /// A vector is there; the flag says whether it had to be generated.
    Embedding(bool),
    /// The number of links that were chosen from the nearest products.
    Selected(usize),
}

/// What the job asks for next.
#[derive(Clone, Copy, Debug, PartialEq, Eq)]
pub enum BenchmarkAction {
    GetBenchmark,
    /// Mark the benchmark as processing.
    SetProcessing,
    InitEmbedder,
    /// Load or generate the benchmark's vector.
    EmbedBenchmark,
    ListCrawlers,
    /// Remove every link of the benchmark.
    RemoveAssociations,
    /// List the products of the crawler with this number.
    ListProducts(usize),
    /// Load or generate the vector of a product: the crawler's number, then
    /// the product's.
    EmbedProduct(usize, usize),
    /// Search the `TOP_K` products of the crawler with this number that are
    /// nearest to the benchmark, and choose the links to write.
    Search(usize),
    /// Write a link: the crawler's number, then the link's among those
    /// chosen.
    WriteAssociation(usize, usize),
    /// Update the benchmark's statistics: its number of links, the time,
    /// and that it is no longer processing.
    UpdateStats,
    Finish(BenchmarkOutcome),
}

/// The number after `x`; `x` itself where there is none.
pub open spec fn succ(x: usize) -> usize {
    if x < usize::MAX {
        (x + 1) as usize
    } else {
        x
    }
}

/// The state in which a job starts.
pub open spec fn benchmark_initial(reset_on_failure: bool) -> BenchmarkState {
    BenchmarkState {
        phase: BenchmarkPhase::Loading,
        reset_on_failure,
        crawlers: 0,
        crawler: 0,
        products: 0,
        product: 0,
        links: 0,
        link: 0,
        written: 0,
    }
}

/// The job ends.
pub open spec fn ended(s: BenchmarkState, outcome: BenchmarkOutcome) -> (
    BenchmarkState,
    BenchmarkAction,
) {
    (
        BenchmarkState { phase: BenchmarkPhase::Finished(outcome), ..s },
        BenchmarkAction::Finish(outcome),
    )
}

/// A request failed after the benchmark was marked: the job stops, and
/// takes the mark back where that is wanted.
pub open spec fn aborted(s: BenchmarkState) -> (BenchmarkState, BenchmarkAction) {
    if s.reset_on_failure {
        (
            BenchmarkState { phase: BenchmarkPhase::UpdatingStats(false), ..s },
            BenchmarkAction::UpdateStats,
        )
    } else {
        ended(s, BenchmarkOutcome::Failed)
    }
}

/// The job turns to the crawler `s.crawler`, or to the statistics where no
/// crawler is left.
pub open spec fn to_crawler(s: BenchmarkState) -> (BenchmarkState, BenchmarkAction) {
    let t = BenchmarkState { products: 0, product: 0, links: 0, link: 0, ..s };
    if t.crawler < t.crawlers {
        (
            BenchmarkState { phase: BenchmarkPhase::ListingProducts, ..t },
            BenchmarkAction::ListProducts(t.crawler),
        )
    } else {
        (
            BenchmarkState { phase: BenchmarkPhase::UpdatingStats(true), ..t },
            BenchmarkAction::UpdateStats,
        )
    }
}

/// The job turns to the link `s.link`, or to the next crawler where no
/// link is left.
pub open spec fn to_link(s: BenchmarkState) -> (BenchmarkState, BenchmarkAction) {
    if s.link < s.links {
        (
            BenchmarkState { phase: BenchmarkPhase::Writing, ..s },
            BenchmarkAction::WriteAssociation(s.crawler, s.link),
        )
    } else {
        to_crawler(BenchmarkState { crawler: succ(s.crawler), ..s })
    }
}

/// The job's next state and request, from its state and what came back.
///
/// A benchmark that is marked as processing is left alone. Otherwise it is
/// marked, its vector is made sure of, the tenant's crawlers are listed and
/// the benchmark's links are removed. Then, crawler by crawler, the
/// products are listed, the vector of each is made sure of, the nearest
/// products are searched, and the links chosen from them are written; a
/// crawler without products is passed over. At the end the statistics are
/// updated. A failure of any request, an answer that does not fit the
/// request, or more than `TOP_K` links for one crawler, stops the job.
pub open spec fn benchmark_next(s: BenchmarkState, e: BenchmarkEvent) -> (
    BenchmarkState,
    BenchmarkAction,
) {
    match (s.phase, e) {
        (BenchmarkPhase::Loading, BenchmarkEvent::Loaded(true)) => ended(
            s,
            BenchmarkOutcome::AlreadyRunning,
        ),
        (BenchmarkPhase::Loading, BenchmarkEvent::Loaded(false)) => (
            BenchmarkState { phase: BenchmarkPhase::Marking, ..s },
            BenchmarkAction::SetProcessing,
        ),
        (BenchmarkPhase::Loading, _) => ended(s, BenchmarkOutcome::Failed),
        (BenchmarkPhase::Marking, BenchmarkEvent::Done) => (
            BenchmarkState { phase: BenchmarkPhase::Initializing, ..s },
            BenchmarkAction::InitEmbedder,
        ),
        (BenchmarkPhase::Marking, _) => ended(s, BenchmarkOutcome::Failed),
        (BenchmarkPhase::Initializing, BenchmarkEvent::Done) => (
            BenchmarkState { phase: BenchmarkPhase::EmbeddingBenchmark, ..s },
            BenchmarkAction::EmbedBenchmark,
        ),
        (BenchmarkPhase::EmbeddingBenchmark, BenchmarkEvent::Embedding(_)) => (
            BenchmarkState { phase: BenchmarkPhase::ListingCrawlers, ..s },
            BenchmarkAction::ListCrawlers,
        ),
        (BenchmarkPhase::ListingCrawlers, BenchmarkEvent::Count(n)) => (
            BenchmarkState { phase: BenchmarkPhase::Removing, crawlers: n, crawler: 0, ..s },
            BenchmarkAction::RemoveAssociations,
        ),
        (BenchmarkPhase::Removing, BenchmarkEvent::Done) => to_crawler(s),
        (BenchmarkPhase::ListingProducts, BenchmarkEvent::Count(n)) => if n == 0 {
            to_crawler(BenchmarkState { crawler: succ(s.crawler), ..s })
        } else {
            (
                BenchmarkState {
                    phase: BenchmarkPhase::EmbeddingProduct,
                    products: n,
                    product: 0,
                    ..s
                },
                BenchmarkAction::EmbedProduct(s.crawler, 0),
            )
        },
        (BenchmarkPhase::EmbeddingProduct, BenchmarkEvent::Embedding(_)) => {
            let t = BenchmarkState { product: succ(s.product), ..s };
            if t.product < t.products {
                (t, BenchmarkAction::EmbedProduct(t.crawler, t.product))
            } else {
                (
                    BenchmarkState { phase: BenchmarkPhase::Searching, ..t },
                    BenchmarkAction::Search(t.crawler),
                )
            }
        },
        (BenchmarkPhase::Searching, BenchmarkEvent::Selected(n)) => if n > TOP_K {
            aborted(s)
        } else {
            to_link(BenchmarkState { links: n, link: 0, ..s })
        },
        (BenchmarkPhase::Writing, BenchmarkEvent::Done) => to_link(
            BenchmarkState { link: succ(s.link), written: succ(s.written), ..s },
        ),
        (BenchmarkPhase::UpdatingStats(true), BenchmarkEvent::Done) => ended(
            s,
            BenchmarkOutcome::Completed(s.written),
        ),
        (BenchmarkPhase::UpdatingStats(_), _) => ended(s, BenchmarkOutcome::Failed),
        (BenchmarkPhase::Finished(outcome), _) => (s, BenchmarkAction::Finish(outcome)),
        _ => aborted(s),
    }
}

/// Whether in this phase the job has marked the benchmark and has not
/// ended.
pub open spec fn marked(phase: BenchmarkPhase) -> bool {
    !(phase is Loading || phase is Marking || phase is Finished)
}

/// What holds of the counts in every state that a job reaches: for each
/// crawler at most `TOP_K` links are chosen, and no more links were written
/// than `TOP_K` for each crawler that is done, and those written for the
/// crawler that is worked on.
pub open spec fn counts_hold(s: BenchmarkState) -> bool {
    &&& s.links <= TOP_K
    &&& s.link <= s.links
    &&& s.crawler <= s.crawlers
    &&& (s.links > 0 ==> s.crawler < s.crawlers)
    &&& s.written <= TOP_K * s.crawler + s.link
    &&& (s.phase is Writing ==> s.link < s.links)
    &&& (s.phase is ListingProducts || s.phase is EmbeddingProduct || s.phase is Searching
        || s.phase is Writing ==> s.crawler < s.crawlers)
    &&& (s.phase is ListingProducts || s.phase is EmbeddingProduct || s.phase is Searching
        ==> s.links == 0)
    &&& (s.phase == BenchmarkPhase::UpdatingStats(true) ==> s.links == 0)
    &&& (s.phase matches BenchmarkPhase::Finished(BenchmarkOutcome::Completed(n)) ==> n <= TOP_K
        * s.crawlers && s.links == 0)
    &&& (s.phase is Loading || s.phase is Marking || s.phase is Initializing || s.phase
        is EmbeddingBenchmark || s.phase is ListingCrawlers || s.phase is Removing ==> s.crawler
        == 0 && s.links == 0 && s.written == 0)
}

/// The counts hold at the start and after every step. A job that runs
/// through has written at most `TOP_K` links for each crawler of the
/// tenant.
pub proof fn lemma_association_cap(s: BenchmarkState, e: BenchmarkEvent)
    requires
        counts_hold(s),
    ensures
        counts_hold(benchmark_initial(s.reset_on_failure)),
        counts_hold(benchmark_next(s, e).0),
        benchmark_next(s, e).1 matches BenchmarkAction::Finish(BenchmarkOutcome::Completed(n))
            ==> n <= TOP_K * s.crawlers,
        benchmark_next(s, e).1 matches BenchmarkAction::WriteAssociation(_, link) ==> link
            < TOP_K,
{
    let t = benchmark_next(s, e).0;
    if s.phase == BenchmarkPhase::UpdatingStats(true) {
        assert(TOP_K * s.crawler <= TOP_K * s.crawlers) by (nonlinear_arith)
            requires
                s.crawler <= s.crawlers,
        ;
    }
}

/// The links are removed before any is written, and once the benchmark is
/// marked the job ends only over the update of the statistics, which takes
/// the mark back, unless it fails and is set not to take the mark back.
pub proof fn lemma_mark_is_taken_back(s: BenchmarkState, e: BenchmarkEvent)
    ensures
        ({
            let (t, action) = benchmark_next(s, e);
            &&& marked(t.phase) && !marked(s.phase) ==> s.phase is Marking && e is Done
            &&& marked(s.phase) && t.phase is Finished ==> s.phase is UpdatingStats || (
            !s.reset_on_failure && t.phase == BenchmarkPhase::Finished(BenchmarkOutcome::Failed))
            &&& t.phase is UpdatingStats && !(s.phase is UpdatingStats) ==> action
                is UpdateStats
            &&& action is WriteAssociation ==> s.phase is Searching || s.phase is Writing
            &&& action is RemoveAssociations ==> s.phase is ListingCrawlers
            &&& t.reset_on_failure == s.reset_on_failure
        }),
{
}

/// The state of a job after the first `k` of the answers that it gets.
pub open spec fn state_after(
    reset_on_failure: bool,
    events: Seq<BenchmarkEvent>,
    k: int,
) -> BenchmarkState
    decreases k,
{
    if k <= 0 {
        benchmark_initial(reset_on_failure)
    } else {
        benchmark_next(state_after(reset_on_failure, events, k - 1), events[k - 1]).0
    }
}

/// The request that a job makes after the first `k` of the answers that it
/// gets.
pub open spec fn action_after(
    reset_on_failure: bool,
    events: Seq<BenchmarkEvent>,
    k: int,
) -> BenchmarkAction {
    if k <= 0 {
        BenchmarkAction::GetBenchmark
    } else {
        benchmark_next(state_after(reset_on_failure, events, k - 1), events[k - 1]).1
    }
}

/// The number of links that a job has asked to write after the first `k`
/// of the answers that it gets.
pub open spec fn writes_after(reset_on_failure: bool, events: Seq<BenchmarkEvent>, k: int) -> int
    decreases k,
{
    if k <= 0 {
        0
    } else if action_after(reset_on_failure, events, k) is WriteAssociation {
        writes_after(reset_on_failure, events, k - 1) + 1
    } else {
        writes_after(reset_on_failure, events, k - 1)
    }
}

/// The most links that a job in this state can have asked to write:
/// `TOP_K` for each crawler that it is done with, and for the crawler that
/// it works on those up to the one in writing, or, once it has stopped,
/// those chosen.
pub open spec fn most_writes(s: BenchmarkState) -> int {
    TOP_K * s.crawler + (if s.phase is Writing {
        s.link + 1
    } else if s.phase == BenchmarkPhase::UpdatingStats(false) || s.phase
        == BenchmarkPhase::Finished(BenchmarkOutcome::Failed) {
        s.links as int
    } else {
        s.link as int
    })
}

/// At every point of a job the counts hold, and the job has asked to write
/// no more links than its state allows, which is at most `TOP_K` for each
/// crawler of the tenant.
pub proof fn lemma_run_holds(reset_on_failure: bool, events: Seq<BenchmarkEvent>, k: int)
    requires
        0 <= k <= events.len(),
    ensures
        counts_hold(state_after(reset_on_failure, events, k)),
        writes_after(reset_on_failure, events, k) <= most_writes(
            state_after(reset_on_failure, events, k),
        ),
        most_writes(state_after(reset_on_failure, events, k)) <= TOP_K * state_after(
            reset_on_failure,
            events,
            k,
        ).crawlers,
    decreases k,
{
    if k > 0 {
        lemma_run_holds(reset_on_failure, events, k - 1);
        let s = state_after(reset_on_failure, events, k - 1);
        lemma_association_cap(s, events[k - 1]);
    } else {
        lemma_association_cap(benchmark_initial(reset_on_failure), BenchmarkEvent::Done);
    }
    let t = state_after(reset_on_failure, events, k);
    if t.crawler < t.crawlers {
        assert(TOP_K * t.crawler + TOP_K <= TOP_K * t.crawlers) by (nonlinear_arith)
            requires
                t.crawler < t.crawlers,
        ;
    }
}

/// Whatever answers a job gets, it asks to write at most `TOP_K` links for
/// each crawler of the benchmark's tenant.
pub proof fn lemma_run_writes_at_most(reset_on_failure: bool, events: Seq<BenchmarkEvent>)
    ensures
        writes_after(reset_on_failure, events, events.len() as int) <= TOP_K * state_after(
            reset_on_failure,
            events,
            events.len() as int,
        ).crawlers,
{
    lemma_run_holds(reset_on_failure, events, events.len() as int);
}

/// The number after `x`; `x` itself where there is none.
fn next_number(x: usize) -> (r: usize)
    ensures
        r == succ(x),
{
    if x < usize::MAX {
        x + 1
    } else {
        x
    }
}

/// Ends the job.
fn end(s: BenchmarkState, outcome: BenchmarkOutcome) -> (r: (BenchmarkState, BenchmarkAction))
    ensures
        r == ended(s, outcome),
{
    (
        BenchmarkState { phase: BenchmarkPhase::Finished(outcome), ..s },
        BenchmarkAction::Finish(outcome),
    )
}

/// Stops the job after a failure, and takes the mark back where that is
/// wanted.
fn abort(s: BenchmarkState) -> (r: (BenchmarkState, BenchmarkAction))
    ensures
        r == aborted(s),
{
    if s.reset_on_failure {
        (
            BenchmarkState { phase: BenchmarkPhase::UpdatingStats(false), ..s },
            BenchmarkAction::UpdateStats,
        )
    } else {
        end(s, BenchmarkOutcome::Failed)
    }
}

/// Turns to the crawler `s.crawler`, or to the statistics.
fn turn_to_crawler(s: BenchmarkState) -> (r: (BenchmarkState, BenchmarkAction))
    ensures
        r == to_crawler(s),
{
    let t = BenchmarkState { products: 0, product: 0, links: 0, link: 0, ..s };
    if t.crawler < t.crawlers {
        (
            BenchmarkState { phase: BenchmarkPhase::ListingProducts, ..t },
            BenchmarkAction::ListProducts(t.crawler),
        )
    } else {
        (
            BenchmarkState { phase: BenchmarkPhase::UpdatingStats(true), ..t },
            BenchmarkAction::UpdateStats,
        )
    }
}

/// Turns to the link `s.link`, or to the next crawler.
fn turn_to_link(s: BenchmarkState) -> (r: (BenchmarkState, BenchmarkAction))
    ensures
        r == to_link(s),
{
    if s.link < s.links {
        (
            BenchmarkState { phase: BenchmarkPhase::Writing, ..s },
            BenchmarkAction::WriteAssociation(s.crawler, s.link),
        )
    } else {
        turn_to_crawler(BenchmarkState { crawler: next_number(s.crawler), ..s })
    }
}

/// The start of a benchmark matching: the first state and the first
/// request. `reset_on_failure` says whether a job that fails after it
/// marked the benchmark takes the mark back.
pub fn benchmark_start(reset_on_failure: bool) -> (r: (BenchmarkState, BenchmarkAction))
    ensures
        r == (benchmark_initial(reset_on_failure), BenchmarkAction::GetBenchmark),
{
    (
        BenchmarkState {
            phase: BenchmarkPhase::Loading,
            reset_on_failure,
            crawlers: 0,
            crawler: 0,
            products: 0,
            product: 0,
            links: 0,
            link: 0,
            written: 0,
        },
        BenchmarkAction::GetBenchmark,
    )
}

/// One step of a benchmark matching.
pub fn process_benchmark(s: BenchmarkState, e: BenchmarkEvent) -> (r: (
    BenchmarkState,
    BenchmarkAction,
))
    ensures
        r == benchmark_next(s, e),
{
    match (s.phase, e) {
        (BenchmarkPhase::Loading, BenchmarkEvent::Loaded(true)) => end(
            s,
            BenchmarkOutcome::AlreadyRunning,
        ),
        (BenchmarkPhase::Loading, BenchmarkEvent::Loaded(false)) => (
            BenchmarkState { phase: BenchmarkPhase::Marking, ..s },
            BenchmarkAction::SetProcessing,
        ),
        (BenchmarkPhase::Loading, _) => end(s, BenchmarkOutcome::Failed),
        (BenchmarkPhase::Marking, BenchmarkEvent::Done) => (
            BenchmarkState { phase: BenchmarkPhase::Initializing, ..s },
            BenchmarkAction::InitEmbedder,
        ),
        (BenchmarkPhase::Marking, _) => end(s, BenchmarkOutcome::Failed),
        (BenchmarkPhase::Initializing, BenchmarkEvent::Done) => (
            BenchmarkState { phase: BenchmarkPhase::EmbeddingBenchmark, ..s },
            BenchmarkAction::EmbedBenchmark,
        ),
        (BenchmarkPhase::EmbeddingBenchmark, BenchmarkEvent::Embedding(_)) => (
            BenchmarkState { phase: BenchmarkPhase::ListingCrawlers, ..s },
            BenchmarkAction::ListCrawlers,
        ),
        (BenchmarkPhase::ListingCrawlers, BenchmarkEvent::Count(n)) => (
            BenchmarkState { phase: BenchmarkPhase::Removing, crawlers: n, crawler: 0, ..s },
            BenchmarkAction::RemoveAssociations,
        ),
        (BenchmarkPhase::Removing, BenchmarkEvent::Done) => turn_to_crawler(s),
        (BenchmarkPhase::ListingProducts, BenchmarkEvent::Count(n)) => {
            if n == 0 {
                turn_to_crawler(BenchmarkState { crawler: next_number(s.crawler), ..s })
            } else {
                (
                    BenchmarkState {
                        phase: BenchmarkPhase::EmbeddingProduct,
                        products: n,
                        product: 0,
                        ..s
                    },
                    BenchmarkAction::EmbedProduct(s.crawler, 0),
                )
            }
        },
        (BenchmarkPhase::EmbeddingProduct, BenchmarkEvent::Embedding(_)) => {
            let t = BenchmarkState { product: next_number(s.product), ..s };
            if t.product < t.products {
                (t, BenchmarkAction::EmbedProduct(t.crawler, t.product))
            } else {
                (
                    BenchmarkState { phase: BenchmarkPhase::Searching, ..t },
                    BenchmarkAction::Search(t.crawler),
                )
            }
        },
        (BenchmarkPhase::Searching, BenchmarkEvent::Selected(n)) => {
            if n > TOP_K {
                abort(s)
            } else {
                turn_to_link(BenchmarkState { links: n, link: 0, ..s })
            }
        },
        (BenchmarkPhase::Writing, BenchmarkEvent::Done) => turn_to_link(
            BenchmarkState { link: next_number(s.link), written: next_number(s.written), ..s },
        ),
        (BenchmarkPhase::UpdatingStats(true), BenchmarkEvent::Done) => end(
            s,
            BenchmarkOutcome::Completed(s.written),
        ),
        (BenchmarkPhase::UpdatingStats(_), _) => end(s, BenchmarkOutcome::Failed),
        (BenchmarkPhase::Finished(outcome), _) => (s, BenchmarkAction::Finish(outcome)),
        _ => abort(s),
    }
}

} // verus!

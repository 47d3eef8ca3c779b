//! The crawl of a store: which store a selector names, and the course of a
//! crawl job from the message to the release of the tenant's processing
//! lock.
//!
//! The job is a state machine. It asks for one thing at a time and decides
//! from what came back what to ask for next. The pages are fetched and the
//! products are kept elsewhere; the stages between the fetches are in
//! [`crate::pipeline`].

use vstd::prelude::*;
use crate::text::same_text;

verus! {

/// The number of requests to one store that may be under way at once.
pub const CONCURRENCY: usize = 5;

/// A store that can be crawled.
#[derive(Clone, Copy, Debug, PartialEq, Eq)]
pub enum Store {
    Rusteaco,
    Tea101,
    Gutenberg,
}

/// The store that a selector names, if it names one.
pub open spec fn store_named(selector: Seq<char>) -> Option<Store> {
    if selector == "rusteaco"@ {
        Some(Store::Rusteaco)
    } else if selector == "101tea"@ {
        Some(Store::Tea101)
    } else if selector == "gutenberg"@ {
        Some(Store::Gutenberg)
    } else {
        None
    }
}

/// Finds the store that a selector names.
pub fn store_of(selector: &str) -> (r: Option<Store>)
    ensures
        r == store_named(selector@),
{
    if same_text(selector, "rusteaco") {
        Some(Store::Rusteaco)
    } else if same_text(selector, "101tea") {
        Some(Store::Tea101)
    } else if same_text(selector, "gutenberg") {
        Some(Store::Gutenberg)
    } else {
        None
    }
}

/// How the products that a crawl found are kept.
#[derive(Clone, Copy, Debug, PartialEq, Eq)]
pub enum Persistence {
    /// The crawler's products are deleted, with their links to benchmarks,
    /// and the products found are inserted.
    FullReplace,
    /// The products found are inserted or, where the crawler has a product
    /// at the same address, written over it.
    Patch,
}

/// A message that names no pages asks for a full replacement, one that
/// names pages for a patch over them.
pub fn persistence_of(urls: &Vec<String>) -> (r: Persistence)
    ensures
        r == (if urls@.len() == 0 {
            Persistence::FullReplace
        } else {
            Persistence::Patch
        }),
{
    if urls.len() == 0 {
        Persistence::FullReplace
    } else {
        Persistence::Patch
    }
}

/// How a crawl job ended.
#[derive(Clone, Copy, Debug, PartialEq, Eq)]
pub enum CrawlOutcome {
    /// The crawler, or another crawler or benchmark of its tenant, was being
    /// worked on already: nothing was done.
    AlreadyRunning,
    /// The selector names no store: nothing was done.
    UnknownCrawler,
    /// A request failed on which the job depends.
    Failed,
    /// The job ran through.
    Completed,
}

/// Where a crawl job stands.
#[derive(Clone, Copy, Debug, PartialEq, Eq)]
pub enum CrawlPhase {
    /// The crawler's record is being loaded.
    Loading,
    /// The processing lock of the crawler's tenant is being claimed.
    Claiming,
    /// The crawler's products are being deleted.
    Deleting,
    /// The store is being crawled.
    Crawling,
    /// The products found are being inserted.
    Creating,
    /// The pages that the message names are being fetched.
    Fetching,
    /// The products found are being written over the crawler's products.
    Updating,
    /// The crawler's statistics are being updated.
    UpdatingStats,
    /// The tenant's processing lock is being released; the flag says
    /// whether the job ran through.
    Releasing(bool),
    /// The job is over.
    Finished(CrawlOutcome),
}

/// The state of a crawl job.
#[derive(Clone, Copy, Debug, PartialEq, Eq)]
pub struct CrawlState {
    pub phase: CrawlPhase,
    /// Whether the selector names a store.
    pub known: bool,
    pub persistence: Persistence,
}

/// What came back from the last thing the job asked for.
#[derive(Clone, Copy, Debug, PartialEq, Eq)]
pub enum CrawlEvent {
    /// The crawler's record was loaded; the flag says whether it is marked
    /// as processing.
    Loaded(bool),
    /// The claim of the lock was answered; the flag says whether it was
    /// granted.
    Claimed(bool),
    /// It was done.
    Done,
    /// It failed.
    Failed,
}

/// What the job asks for next.
#[derive(Clone, Copy, Debug, PartialEq, Eq)]
pub enum CrawlAction {
    GetCrawler,
    /// Claim the processing lock of the crawler's tenant: where no crawler
    /// and no benchmark of the tenant is marked as processing, mark them
    /// all, in one step.
    ClaimLock,
    /// Delete the crawler's products and their links to benchmarks.
    DeleteProducts,
    /// Crawl the whole store.
    CrawlStore,
    /// Insert the products found.
    CreateProducts,
    /// Fetch the pages that the message names.
    FetchProducts,
    /// Write the products found over the crawler's products.
    UpdateProducts,
    /// Update the crawler's statistics: its number of products and the
    /// time.
    UpdateStats,
    /// Release the processing lock of the crawler's tenant.
    ReleaseLock,
    Finish(CrawlOutcome),
}

/// The job ends.
pub open spec fn ended(s: CrawlState, outcome: CrawlOutcome) -> (CrawlState, CrawlAction) {
    (CrawlState { phase: CrawlPhase::Finished(outcome), ..s }, CrawlAction::Finish(outcome))
}

/// The job goes on to the request `action` in the phase `phase`.
pub open spec fn goes_on(s: CrawlState, phase: CrawlPhase, action: CrawlAction) -> (
    CrawlState,
    CrawlAction,
) {
    (CrawlState { phase, ..s }, action)
}

/// The job releases the lock; `ok` says whether it ran through.
pub open spec fn releases(s: CrawlState, ok: bool) -> (CrawlState, CrawlAction) {
    goes_on(s, CrawlPhase::Releasing(ok), CrawlAction::ReleaseLock)
}

/// The job's next state and request, from its state and what came back.
///
/// A crawler that is marked as processing is left alone, and so is a
/// selector that names no store. Otherwise the lock of the crawler's
/// tenant is claimed; where the claim is refused or fails, the job ends
/// and has changed nothing. Under the lock, a full replacement deletes the
/// crawler's products, and only when that is done crawls the store and
/// inserts what was found; a patch fetches the named pages and writes what
/// was found over the crawler's products. Then the statistics are updated,
/// also where inserting or writing failed. Whatever fails under the lock,
/// the lock is released before the job ends.
pub open spec fn crawl_next(s: CrawlState, e: CrawlEvent) -> (CrawlState, CrawlAction) {
    match (s.phase, e) {
        (CrawlPhase::Loading, CrawlEvent::Loaded(true)) => ended(s, CrawlOutcome::AlreadyRunning),
        (CrawlPhase::Loading, CrawlEvent::Loaded(false)) => if s.known {
            goes_on(s, CrawlPhase::Claiming, CrawlAction::ClaimLock)
        } else {
            ended(s, CrawlOutcome::UnknownCrawler)
        },
        (CrawlPhase::Loading, _) => ended(s, CrawlOutcome::Failed),
        (CrawlPhase::Claiming, CrawlEvent::Claimed(true)) => match s.persistence {
            Persistence::FullReplace => goes_on(
                s,
                CrawlPhase::Deleting,
                CrawlAction::DeleteProducts,
            ),
            Persistence::Patch => goes_on(s, CrawlPhase::Fetching, CrawlAction::FetchProducts),
        },
        (CrawlPhase::Claiming, CrawlEvent::Claimed(false)) => ended(
            s,
            CrawlOutcome::AlreadyRunning,
        ),
        (CrawlPhase::Claiming, _) => ended(s, CrawlOutcome::Failed),
        (CrawlPhase::Deleting, CrawlEvent::Done) => goes_on(
            s,
            CrawlPhase::Crawling,
            CrawlAction::CrawlStore,
        ),
        (CrawlPhase::Crawling, CrawlEvent::Done) => goes_on(
            s,
            CrawlPhase::Creating,
            CrawlAction::CreateProducts,
        ),
        (CrawlPhase::Fetching, CrawlEvent::Done) => goes_on(
            s,
            CrawlPhase::Updating,
            CrawlAction::UpdateProducts,
        ),
        (CrawlPhase::Deleting, _)
        | (CrawlPhase::Crawling, _)
        | (CrawlPhase::Fetching, _) => releases(s, false),
        (CrawlPhase::Creating, _) | (CrawlPhase::Updating, _) => goes_on(
            s,
            CrawlPhase::UpdatingStats,
            CrawlAction::UpdateStats,
        ),
        (CrawlPhase::UpdatingStats, CrawlEvent::Done) => releases(s, true),
        (CrawlPhase::UpdatingStats, _) => releases(s, false),
        (CrawlPhase::Releasing(true), CrawlEvent::Done) => ended(s, CrawlOutcome::Completed),
        (CrawlPhase::Releasing(_), _) => ended(s, CrawlOutcome::Failed),
        (CrawlPhase::Finished(outcome), _) => (s, CrawlAction::Finish(outcome)),
    }
}

/// The state in which a job starts.
pub open spec fn crawl_initial(known: bool, persistence: Persistence) -> CrawlState {
    CrawlState { phase: CrawlPhase::Loading, known, persistence }
}

/// Whether in this phase the job holds the tenant's lock and has not yet
/// asked to release it.
pub open spec fn holds_lock(phase: CrawlPhase) -> bool {
    phase is Deleting || phase is Crawling || phase is Creating || phase is Fetching || phase
        is Updating || phase is UpdatingStats
}

/// The number of steps that a job in this phase has left at most.
pub open spec fn steps_left(phase: CrawlPhase) -> nat {
    match phase {
        CrawlPhase::Loading => 8,
        CrawlPhase::Claiming => 7,
        CrawlPhase::Deleting => 6,
        CrawlPhase::Crawling => 5,
        CrawlPhase::Fetching => 5,
        CrawlPhase::Creating => 4,
        CrawlPhase::Updating => 4,
        CrawlPhase::UpdatingStats => 3,
        CrawlPhase::Releasing(_) => 2,
        CrawlPhase::Finished(_) => 0,
    }
}

/// One step of a job: the lock is held only after a granted claim, and a
/// phase in which it is held is left only for another such phase or with
/// the request to release it, whatever came back. Products are inserted
/// only after the crawler's products were deleted: nothing is inserted and
/// nothing is deleted in a patch, and in a full replacement nothing is
/// written over. The store is changed only under the lock, and nothing is
/// asked of a store that the selector does not name. Every job ends.
pub proof fn lemma_replace_deletes_first(s: CrawlState, e: CrawlEvent)
    ensures
        ({
            let (t, action) = crawl_next(s, e);
            &&& t.persistence == s.persistence && t.known == s.known
            &&& holds_lock(t.phase) && !holds_lock(s.phase) ==> s.phase is Claiming && e
                == CrawlEvent::Claimed(true)
            &&& holds_lock(s.phase) && !holds_lock(t.phase) ==> action is ReleaseLock
            &&& holds_lock(s.phase) ==> !(t.phase is Finished)
            &&& t.phase is Finished ==> !holds_lock(t.phase)
            &&& action is DeleteProducts || action is CrawlStore || action is CreateProducts
                || action is FetchProducts || action is UpdateProducts || action is UpdateStats
                ==> holds_lock(t.phase)
            &&& action is ReleaseLock ==> holds_lock(s.phase)
            &&& action is CrawlStore ==> s.phase is Deleting && e is Done
            &&& action is CreateProducts ==> s.phase is Crawling && e is Done
            &&& action is DeleteProducts ==> s.persistence is FullReplace && s.phase is Claiming
            &&& action is FetchProducts ==> s.persistence is Patch && s.phase is Claiming
            &&& action is UpdateProducts ==> s.phase is Fetching && e is Done
            &&& action is ClaimLock ==> s.known && s.phase is Loading && e == CrawlEvent::Loaded(
                false,
            )
            &&& action is Finish <==> t.phase is Finished
            &&& !(s.phase is Finished) ==> steps_left(t.phase) < steps_left(s.phase)
        }),
{
}

/// The state of a job after the first `k` of the answers that it gets.
pub open spec fn state_after(start: CrawlState, events: Seq<CrawlEvent>, k: int) -> CrawlState
    decreases k,
{
    if k <= 0 {
        start
    } else {
        crawl_next(state_after(start, events, k - 1), events[k - 1]).0
    }
}

/// The request that a job makes after the first `k` of the answers that it
/// gets.
pub open spec fn action_after(start: CrawlState, events: Seq<CrawlEvent>, k: int) -> CrawlAction {
    if k <= 0 {
        CrawlAction::GetCrawler
    } else {
        crawl_next(state_after(start, events, k - 1), events[k - 1]).1
    }
}

/// Whether, after the first `k` answers, the job holds a lock that it has
/// not yet asked to release: a claim of it was granted, and no request to
/// release was made since.
pub open spec fn lock_stands(start: CrawlState, events: Seq<CrawlEvent>, k: int) -> bool
    decreases k,
{
    if k <= 0 {
        false
    } else if action_after(start, events, k) is ReleaseLock {
        false
    } else if action_after(start, events, k - 1) is ClaimLock && events[k - 1]
        == CrawlEvent::Claimed(true) {
        true
    } else {
        lock_stands(start, events, k - 1)
    }
}

/// Whether, within the first `k` answers, the store has done the deletion
/// of the crawler's products.
pub open spec fn deleted_within(start: CrawlState, events: Seq<CrawlEvent>, k: int) -> bool
    decreases k,
{
    if k <= 0 {
        false
    } else {
        (action_after(start, events, k - 1) is DeleteProducts && events[k - 1] is Done)
            || deleted_within(start, events, k - 1)
    }
}

/// Whatever answers a job gets: no job ends with a lock that it claimed
/// and did not ask to release, also where a deletion, a crawl or a fetch
/// fails; the store is changed only while the lock stands; where the claim
/// is refused, or the crawler is marked as processing, or the selector
/// names no store, the job ends without having asked for any change. The
/// job crawls the store and inserts products only after the crawler's
/// products were deleted, and only in a full replacement; it fetches pages
/// and writes over products only in a patch, in which it deletes nothing.
pub proof fn lemma_run_replaces_or_patches(
    known: bool,
    persistence: Persistence,
    events: Seq<CrawlEvent>,
    k: int,
)
    requires
        0 <= k <= events.len(),
    ensures
        ({
            let start = crawl_initial(known, persistence);
            let s = state_after(start, events, k);
            let action = action_after(start, events, k);
            &&& s.known == known && s.persistence == persistence
            &&& lock_stands(start, events, k) == holds_lock(s.phase)
            &&& (action is Finish ==> !lock_stands(start, events, k))
            &&& (action is Finish <==> s.phase is Finished)
            &&& (action is DeleteProducts || action is CrawlStore || action is CreateProducts
                || action is FetchProducts || action is UpdateProducts || action is UpdateStats
                ==> lock_stands(start, events, k))
            &&& (s.phase is Crawling || s.phase is Creating ==> deleted_within(start, events, k)
                && persistence is FullReplace)
            &&& (action is CrawlStore || action is CreateProducts ==> deleted_within(
                start,
                events,
                k,
            ) && persistence is FullReplace)
            &&& (action is CrawlStore <==> s.phase is Crawling)
            &&& (action is CreateProducts <==> s.phase is Creating)
            &&& (action is DeleteProducts <==> s.phase is Deleting)
            &&& (action is ClaimLock <==> s.phase is Claiming)
            &&& (action is FetchProducts || action is UpdateProducts ==> persistence is Patch)
            &&& (s.phase is Deleting ==> persistence is FullReplace)
            &&& (s.phase is Fetching || s.phase is Updating ==> persistence is Patch)
            &&& (persistence is Patch ==> !deleted_within(start, events, k))
            &&& (!(action is GetCrawler || action is Finish) ==> known && k >= 1 && events[0]
                == CrawlEvent::Loaded(false))
            &&& (!(action is GetCrawler || action is Finish || action is ClaimLock) ==> k >= 2
                && events[1] == CrawlEvent::Claimed(true))
            &&& (action is GetCrawler <==> k == 0)
            &&& (s.phase is Loading <==> k == 0)
            &&& (s.phase is Claiming ==> k == 1)
        }),
    decreases k,
{
    if k > 0 {
        lemma_run_replaces_or_patches(known, persistence, events, k - 1);
        lemma_replace_deletes_first(
            state_after(crawl_initial(known, persistence), events, k - 1),
            events[k - 1],
        );
    }
}

/// Every job ends: after eight answers at most, the job is over.
pub proof fn lemma_run_ends(known: bool, persistence: Persistence, events: Seq<CrawlEvent>, k: int)
    requires
        0 <= k <= events.len(),
    ensures
        ({
            let s = state_after(crawl_initial(known, persistence), events, k);
            &&& steps_left(s.phase) + k <= 8 || s.phase is Finished
            &&& k >= 8 ==> s.phase is Finished
        }),
    decreases k,
{
    if k > 0 {
        lemma_run_ends(known, persistence, events, k - 1);
        lemma_replace_deletes_first(
            state_after(crawl_initial(known, persistence), events, k - 1),
            events[k - 1],
        );
    }
}

/// The start of a crawl job for a selector and the pages that the message
/// names: the first state and the first request.
pub fn crawl_start(selector: &str, urls: &Vec<String>) -> (r: (CrawlState, CrawlAction))
    ensures
        r == (
            crawl_initial(
                store_named(selector@) is Some,
                if urls@.len() == 0 {
                    Persistence::FullReplace
                } else {
                    Persistence::Patch
                },
            ),
            CrawlAction::GetCrawler,
        ),
{
    let known = match store_of(selector) {
        Some(_) => true,
        None => false,
    };
    (
        CrawlState { phase: CrawlPhase::Loading, known, persistence: persistence_of(urls) },
        CrawlAction::GetCrawler,
    )
}

/// Ends the job.
fn end(s: CrawlState, outcome: CrawlOutcome) -> (r: (CrawlState, CrawlAction))
    ensures
        r == ended(s, outcome),
{
    (CrawlState { phase: CrawlPhase::Finished(outcome), ..s }, CrawlAction::Finish(outcome))
}

/// Goes on to the request `action` in the phase `phase`.
fn go_on(s: CrawlState, phase: CrawlPhase, action: CrawlAction) -> (r: (CrawlState, CrawlAction))
    ensures
        r == goes_on(s, phase, action),
{
    (CrawlState { phase, ..s }, action)
}

/// One step of a crawl job.
pub fn process_crawler(s: CrawlState, e: CrawlEvent) -> (r: (CrawlState, CrawlAction))
    ensures
        r == crawl_next(s, e),
{
    match (s.phase, e) {
        (CrawlPhase::Loading, CrawlEvent::Loaded(true)) => end(s, CrawlOutcome::AlreadyRunning),
        (CrawlPhase::Loading, CrawlEvent::Loaded(false)) => {
            if s.known {
                go_on(s, CrawlPhase::Claiming, CrawlAction::ClaimLock)
            } else {
                end(s, CrawlOutcome::UnknownCrawler)
            }
        },
        (CrawlPhase::Loading, _) => end(s, CrawlOutcome::Failed),
        (CrawlPhase::Claiming, CrawlEvent::Claimed(true)) => match s.persistence {
            Persistence::FullReplace => go_on(s, CrawlPhase::Deleting, CrawlAction::DeleteProducts),
            Persistence::Patch => go_on(s, CrawlPhase::Fetching, CrawlAction::FetchProducts),
        },
        (CrawlPhase::Claiming, CrawlEvent::Claimed(false)) => end(
            s,
            CrawlOutcome::AlreadyRunning,
        ),
        (CrawlPhase::Claiming, _) => end(s, CrawlOutcome::Failed),
        (CrawlPhase::Deleting, CrawlEvent::Done) => go_on(
            s,
            CrawlPhase::Crawling,
            CrawlAction::CrawlStore,
        ),
        (CrawlPhase::Crawling, CrawlEvent::Done) => go_on(
            s,
            CrawlPhase::Creating,
            CrawlAction::CreateProducts,
        ),
        (CrawlPhase::Fetching, CrawlEvent::Done) => go_on(
            s,
            CrawlPhase::Updating,
            CrawlAction::UpdateProducts,
        ),
        (CrawlPhase::Deleting, _) | (CrawlPhase::Crawling, _) | (CrawlPhase::Fetching, _) => go_on(
            s,
            CrawlPhase::Releasing(false),
            CrawlAction::ReleaseLock,
        ),
        (CrawlPhase::Creating, _) | (CrawlPhase::Updating, _) => go_on(
            s,
            CrawlPhase::UpdatingStats,
            CrawlAction::UpdateStats,
        ),
        (CrawlPhase::UpdatingStats, CrawlEvent::Done) => go_on(
            s,
            CrawlPhase::Releasing(true),
            CrawlAction::ReleaseLock,
        ),
        (CrawlPhase::UpdatingStats, _) => go_on(
            s,
            CrawlPhase::Releasing(false),
            CrawlAction::ReleaseLock,
        ),
        (CrawlPhase::Releasing(true), CrawlEvent::Done) => end(s, CrawlOutcome::Completed),
        (CrawlPhase::Releasing(_), _) => end(s, CrawlOutcome::Failed),
        (CrawlPhase::Finished(outcome), _) => (s, CrawlAction::Finish(outcome)),
    }
}

} // verus!

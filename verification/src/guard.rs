//! The processing guard of a tenant: a job runs only under the tenant's
//! processing lock, and the lock is released however the job ends.
//!
//! The lock is claimed in one step. A store that cannot do so asks three
//! times instead: whether a job of the tenant runs, to mark the crawlers,
//! and to mark the benchmarks; what it does when one of these fails is the
//! claim protocol below.

use vstd::prelude::*;
use crate::types::{HubId, RepositoryError};

verus! {

/// How a guarded run ended.
#[derive(Clone, Copy, Debug, PartialEq, Eq)]
pub enum GuardOutcome {
    /// Another job of the tenant was running: nothing was done.
    Skipped,
    /// The job ran and succeeded.
    Completed,
    /// The lock could not be claimed, or the job failed.
    Failed,
}

/// Where a guarded run stands.
#[derive(Clone, Copy, Debug, PartialEq, Eq)]
pub enum GuardPhase {
    /// The tenant's lock is being claimed.
    Claiming,
    /// The job runs.
    Running,
    /// The lock is being released; the flag says whether the job succeeded.
    Releasing(bool),
    /// The run is over.
    Finished(GuardOutcome),
}

/// What came back from the last thing the guard asked for.
#[derive(Clone, Copy, Debug, PartialEq, Eq)]
pub enum GuardEvent {
    /// The claim was answered; the flag says whether it was granted.
    Claimed(bool),
    /// The store did what was asked.
    Done,
    /// The store reported an error.
    Failed,
    /// The job succeeded.
    JobDone,
    /// The job failed.
    JobFailed,
}

/// What the guard asks for next.
#[derive(Clone, Copy, Debug, PartialEq, Eq)]
pub enum GuardAction {
    /// Claim the tenant's lock: where no crawler and no benchmark of the
    /// tenant is marked as processing, mark them all.
    ClaimLock,
    RunJob,
    /// Release the tenant's lock: no crawler and no benchmark of the tenant
    /// is marked any longer.
    ReleaseLock,
    Finish(GuardOutcome),
}

/// The end of a run with the given outcome.
pub open spec fn finished(outcome: GuardOutcome) -> (GuardPhase, GuardAction) {
    (GuardPhase::Finished(outcome), GuardAction::Finish(outcome))
}

/// The guard's next phase and request, from its phase and what came back.
///
/// The job runs only when the claim was granted. A claim that is refused
/// ends the run as skipped, one that fails ends it as failed; in both
/// cases nothing else is asked for. After the job the lock is released,
/// whether the job succeeded or not, and the run ends with the job's
/// outcome, whether the release succeeded or not.
pub open spec fn guard_next(phase: GuardPhase, event: GuardEvent) -> (GuardPhase, GuardAction) {
    match phase {
        GuardPhase::Claiming => match event {
            GuardEvent::Claimed(true) => (GuardPhase::Running, GuardAction::RunJob),
            GuardEvent::Claimed(false) => finished(GuardOutcome::Skipped),
            _ => finished(GuardOutcome::Failed),
        },
        GuardPhase::Running => (GuardPhase::Releasing(event is JobDone), GuardAction::ReleaseLock),
        GuardPhase::Releasing(ok) => finished(
            if ok {
                GuardOutcome::Completed
            } else {
                GuardOutcome::Failed
            },
        ),
        GuardPhase::Finished(outcome) => finished(outcome),
    }
}

/// What a guarded run gives back, from how it ended and from what the job
/// gave, if it ran: nothing for a run that was skipped; the job's value for
/// a run that completed; an error in every other case.
pub open spec fn guard_result_of<T>(outcome: GuardOutcome, job: Option<Result<T, ()>>) -> Result<
    Option<T>,
    (),
> {
    match (outcome, job) {
        (GuardOutcome::Skipped, _) => Ok(None),
        (GuardOutcome::Completed, Some(Ok(value))) => Ok(Some(value)),
        _ => Err(()),
    }
}

/// The phase of a run after the first `k` of the answers that it gets.
pub open spec fn phase_after(events: Seq<GuardEvent>, k: int) -> GuardPhase
    decreases k,
{
    if k <= 0 {
        GuardPhase::Claiming
    } else {
        guard_next(phase_after(events, k - 1), events[k - 1]).0
    }
}

/// The request that a run makes after the first `k` of the answers that it
/// gets.
pub open spec fn action_after(events: Seq<GuardEvent>, k: int) -> GuardAction {
    if k <= 0 {
        GuardAction::ClaimLock
    } else {
        guard_next(phase_after(events, k - 1), events[k - 1]).1
    }
}

/// Whether, after the first `k` answers, the run holds a lock that it has
/// not yet asked to release: its claim was granted, and no request to
/// release was made since.
pub open spec fn lock_stands(events: Seq<GuardEvent>, k: int) -> bool
    decreases k,
{
    if k <= 0 {
        false
    } else if action_after(events, k) is ReleaseLock {
        false
    } else if action_after(events, k - 1) is ClaimLock && events[k - 1] == GuardEvent::Claimed(
        true,
    ) {
        true
    } else {
        lock_stands(events, k - 1)
    }
}

/// Whatever answers a run gets: the job runs exactly while the lock
/// stands; when the run ends, no lock stands that it claimed; a run whose
/// claim is refused asks for nothing more and ends as skipped; and every
/// run is over after three answers.
pub proof fn lemma_run_releases(events: Seq<GuardEvent>, k: int)
    requires
        0 <= k <= events.len(),
    ensures
        lock_stands(events, k) == (phase_after(events, k) is Running),
        action_after(events, k) is RunJob <==> lock_stands(events, k),
        action_after(events, k) is Finish ==> !lock_stands(events, k),
        action_after(events, k) is Finish <==> phase_after(events, k) is Finished,
        action_after(events, k) is ClaimLock <==> k == 0,
        k >= 1 && events[0] == GuardEvent::Claimed(false) ==> action_after(events, k)
            == GuardAction::Finish(GuardOutcome::Skipped),
        k >= 1 && events[0] != GuardEvent::Claimed(true) ==> action_after(events, k) is Finish,
        k >= 3 ==> phase_after(events, k) is Finished,
        action_after(events, k) == GuardAction::Finish(GuardOutcome::Completed) ==> k >= 3
            && events[0] == GuardEvent::Claimed(true) && events[1] is JobDone,
    decreases k,
{
    if k > 0 {
        lemma_run_releases(events, k - 1);
    }
}

/// The start of a guarded run: the first phase and the first request.
pub fn guard_start() -> (r: (GuardPhase, GuardAction))
    ensures
        r == (GuardPhase::Claiming, GuardAction::ClaimLock),
{
    (GuardPhase::Claiming, GuardAction::ClaimLock)
}

/// One step of a guarded run.
pub fn guard_step(phase: GuardPhase, event: GuardEvent) -> (r: (GuardPhase, GuardAction))
    ensures
        r == guard_next(phase, event),
{
    match phase {
        GuardPhase::Claiming => match event {
            GuardEvent::Claimed(true) => (GuardPhase::Running, GuardAction::RunJob),
            GuardEvent::Claimed(false) => (
                GuardPhase::Finished(GuardOutcome::Skipped),
                GuardAction::Finish(GuardOutcome::Skipped),
            ),
            _ => (
                GuardPhase::Finished(GuardOutcome::Failed),
                GuardAction::Finish(GuardOutcome::Failed),
            ),
        },
        GuardPhase::Running => {
            let ok = match event {
                GuardEvent::JobDone => true,
                _ => false,
            };
            (GuardPhase::Releasing(ok), GuardAction::ReleaseLock)
        },
        GuardPhase::Releasing(ok) => {
            let outcome = if ok { GuardOutcome::Completed } else { GuardOutcome::Failed };
            (GuardPhase::Finished(outcome), GuardAction::Finish(outcome))
        },
        GuardPhase::Finished(outcome) => (
            GuardPhase::Finished(outcome),
            GuardAction::Finish(outcome),
        ),
    }
}

/// What a guarded run gives back, from how it ended and from what the job
/// gave, if it ran.
pub fn guard_result<T>(outcome: GuardOutcome, job: Option<Result<T, ()>>) -> (r: Result<
    Option<T>,
    (),
>)
    ensures
        r == guard_result_of(outcome, job),
{
    match (outcome, job) {
        (GuardOutcome::Skipped, _) => Ok(None),
        (GuardOutcome::Completed, Some(Ok(value))) => Ok(Some(value)),
        _ => Err(()),
    }
}

/// How a claim in three requests was answered.
#[derive(Clone, Copy, Debug, PartialEq, Eq)]
pub enum ClaimAnswer {
    /// Both marks are set.
    Granted,
    /// A job of the tenant is running; nothing was asked to change.
    Refused,
    /// A request failed.
    Failed,
}

/// Where a claim in three requests stands.
#[derive(Clone, Copy, Debug, PartialEq, Eq)]
pub enum ClaimPhase {
    /// Asking whether a job of the tenant is running.
    Checking,
    /// Marking the tenant's crawlers as processing.
    MarkingCrawlers,
    /// Marking the tenant's benchmarks as processing.
    MarkingBenchmarks,
    /// Taking the crawlers' mark back, the benchmarks' having failed.
    RollingBack,
    /// The claim is answered.
    Answered(ClaimAnswer),
}

/// What came back from the last thing the claim asked for.
#[derive(Clone, Copy, Debug, PartialEq, Eq)]
pub enum ClaimEvent {
    /// Whether a job of the tenant is running.
    Active(bool),
    /// The store did what was asked.
    Done,
    /// The store reported an error.
    Failed,
}

/// What a claim, or a release, in several requests asks for next.
#[derive(Clone, Copy, Debug, PartialEq, Eq)]
pub enum ClaimAction {
    CheckProcessing,
    SetCrawlersProcessing(bool),
    SetBenchmarksProcessing(bool),
    Answer(ClaimAnswer),
}

/// The end of a claim with the given answer.
pub open spec fn answered(answer: ClaimAnswer) -> (ClaimPhase, ClaimAction) {
    (ClaimPhase::Answered(answer), ClaimAction::Answer(answer))
}

/// The next phase and request of a claim in three requests.
///
/// Where a job of the tenant is running, the claim is refused and nothing
/// is asked to change. Otherwise the crawlers are marked and then the
/// benchmarks; when both are done the claim is granted. A failure to mark
/// the benchmarks takes the crawlers' mark back, and the claim fails; so
/// it does where the question or the first mark fails.
pub open spec fn claim_next(phase: ClaimPhase, event: ClaimEvent) -> (ClaimPhase, ClaimAction) {
    match phase {
        ClaimPhase::Checking => match event {
            ClaimEvent::Active(true) => answered(ClaimAnswer::Refused),
            ClaimEvent::Active(false) => (
                ClaimPhase::MarkingCrawlers,
                ClaimAction::SetCrawlersProcessing(true),
            ),
            _ => answered(ClaimAnswer::Failed),
        },
        ClaimPhase::MarkingCrawlers => match event {
            ClaimEvent::Done => (
                ClaimPhase::MarkingBenchmarks,
                ClaimAction::SetBenchmarksProcessing(true),
            ),
            _ => answered(ClaimAnswer::Failed),
        },
        ClaimPhase::MarkingBenchmarks => match event {
            ClaimEvent::Done => answered(ClaimAnswer::Granted),
            _ => (ClaimPhase::RollingBack, ClaimAction::SetCrawlersProcessing(false)),
        },
        ClaimPhase::RollingBack => answered(ClaimAnswer::Failed),
        ClaimPhase::Answered(answer) => answered(answer),
    }
}

/// The requests of a release in two requests, in order: to take the
/// crawlers' mark back, then the benchmarks'.
pub open spec fn release_requests() -> Seq<ClaimAction> {
    seq![ClaimAction::SetCrawlersProcessing(false), ClaimAction::SetBenchmarksProcessing(false)]
}

/// The number of steps that a claim in this phase has left at most.
pub open spec fn claim_steps_left(phase: ClaimPhase) -> nat {
    match phase {
        ClaimPhase::Checking => 4,
        ClaimPhase::MarkingCrawlers => 3,
        ClaimPhase::MarkingBenchmarks => 2,
        ClaimPhase::RollingBack => 1,
        ClaimPhase::Answered(_) => 0,
    }
}

/// The phase of a claim after the first `k` of the answers that it gets.
pub open spec fn claim_phase_after(events: Seq<ClaimEvent>, k: int) -> ClaimPhase
    decreases k,
{
    if k <= 0 {
        ClaimPhase::Checking
    } else {
        claim_next(claim_phase_after(events, k - 1), events[k - 1]).0
    }
}

/// The request that a claim makes after the first `k` of the answers that
/// it gets.
pub open spec fn claim_action_after(events: Seq<ClaimEvent>, k: int) -> ClaimAction {
    if k <= 0 {
        ClaimAction::CheckProcessing
    } else {
        claim_next(claim_phase_after(events, k - 1), events[k - 1]).1
    }
}

/// Whether, after the first `k` answers, the crawlers carry a mark that the
/// claim has set and not asked to take back.
pub open spec fn crawlers_mark_stands(events: Seq<ClaimEvent>, k: int) -> bool
    decreases k,
{
    if k <= 0 {
        false
    } else if claim_action_after(events, k) == ClaimAction::SetCrawlersProcessing(false) {
        false
    } else if claim_action_after(events, k - 1) == ClaimAction::SetCrawlersProcessing(true)
        && events[k - 1] is Done {
        true
    } else {
        crawlers_mark_stands(events, k - 1)
    }
}

/// Whether, after the first `k` answers, the benchmarks carry a mark that
/// the claim has set.
pub open spec fn benchmarks_mark_stands(events: Seq<ClaimEvent>, k: int) -> bool
    decreases k,
{
    if k <= 0 {
        false
    } else if claim_action_after(events, k - 1) == ClaimAction::SetBenchmarksProcessing(true)
        && events[k - 1] is Done {
        true
    } else {
        benchmarks_mark_stands(events, k - 1)
    }
}

/// One step of a claim: it comes nearer to its answer, and it is answered
/// exactly when it says so.
pub proof fn lemma_claim_step(phase: ClaimPhase, event: ClaimEvent)
    ensures
        !(phase is Answered) ==> claim_steps_left(claim_next(phase, event).0) < claim_steps_left(
            phase,
        ),
        claim_next(phase, event).1 is Answer <==> claim_next(phase, event).0 is Answered,
{
}

/// Whatever answers a claim gets: it is granted exactly when both marks
/// stand; a claim that is refused or fails leaves no mark that it set and
/// did not ask to take back; a claim that finds a job of the tenant
/// running asks for no change at all; and every claim is answered after
/// four answers.
pub proof fn lemma_claim_marks(events: Seq<ClaimEvent>, k: int)
    requires
        0 <= k <= events.len(),
    ensures
        claim_action_after(events, k) == ClaimAction::Answer(ClaimAnswer::Granted)
            ==> crawlers_mark_stands(events, k) && benchmarks_mark_stands(events, k),
        claim_action_after(events, k) is Answer && claim_action_after(events, k)
            != ClaimAction::Answer(ClaimAnswer::Granted) ==> !crawlers_mark_stands(events, k)
            && !benchmarks_mark_stands(events, k),
        crawlers_mark_stands(events, k) == (claim_phase_after(events, k) is MarkingBenchmarks
            || claim_phase_after(events, k) == ClaimPhase::Answered(ClaimAnswer::Granted)),
        benchmarks_mark_stands(events, k) == (claim_phase_after(events, k) == ClaimPhase::Answered(
            ClaimAnswer::Granted,
        )),
        claim_action_after(events, k) is Answer <==> claim_phase_after(events, k) is Answered,
        claim_action_after(events, k) is CheckProcessing <==> k == 0,
        k >= 1 && events[0] == ClaimEvent::Active(true) ==> claim_action_after(events, k)
            == ClaimAction::Answer(ClaimAnswer::Refused),
        claim_action_after(events, k) == ClaimAction::Answer(ClaimAnswer::Refused) ==> k >= 1
            && events[0] == ClaimEvent::Active(true),
        k >= 4 ==> claim_phase_after(events, k) is Answered,
    decreases k,
{
    if k > 0 {
        lemma_claim_marks(events, k - 1);
    }
}

/// The start of a claim in three requests: the first phase and the first
/// request.
pub fn claim_start() -> (r: (ClaimPhase, ClaimAction))
    ensures
        r == (ClaimPhase::Checking, ClaimAction::CheckProcessing),
{
    (ClaimPhase::Checking, ClaimAction::CheckProcessing)
}

/// One step of a claim in three requests.
pub fn claim_step(phase: ClaimPhase, event: ClaimEvent) -> (r: (ClaimPhase, ClaimAction))
    ensures
        r == claim_next(phase, event),
{
    match phase {
        ClaimPhase::Checking => match event {
            ClaimEvent::Active(true) => (
                ClaimPhase::Answered(ClaimAnswer::Refused),
                ClaimAction::Answer(ClaimAnswer::Refused),
            ),
            ClaimEvent::Active(false) => (
                ClaimPhase::MarkingCrawlers,
                ClaimAction::SetCrawlersProcessing(true),
            ),
            _ => (
                ClaimPhase::Answered(ClaimAnswer::Failed),
                ClaimAction::Answer(ClaimAnswer::Failed),
            ),
        },
        ClaimPhase::MarkingCrawlers => match event {
            ClaimEvent::Done => (
                ClaimPhase::MarkingBenchmarks,
                ClaimAction::SetBenchmarksProcessing(true),
            ),
            _ => (
                ClaimPhase::Answered(ClaimAnswer::Failed),
                ClaimAction::Answer(ClaimAnswer::Failed),
            ),
        },
        ClaimPhase::MarkingBenchmarks => match event {
            ClaimEvent::Done => (
                ClaimPhase::Answered(ClaimAnswer::Granted),
                ClaimAction::Answer(ClaimAnswer::Granted),
            ),
            _ => (ClaimPhase::RollingBack, ClaimAction::SetCrawlersProcessing(false)),
        },
        ClaimPhase::RollingBack => (
            ClaimPhase::Answered(ClaimAnswer::Failed),
            ClaimAction::Answer(ClaimAnswer::Failed),
        ),
        ClaimPhase::Answered(answer) => (ClaimPhase::Answered(answer), ClaimAction::Answer(answer)),
    }
}

/// What a claim gives back for its answer: whether it was granted, or an
/// error for a claim that failed.
pub open spec fn claim_result_of(answer: ClaimAnswer) -> Option<bool> {
    match answer {
        ClaimAnswer::Granted => Some(true),
        ClaimAnswer::Refused => Some(false),
        ClaimAnswer::Failed => None,
    }
}

/// What a claim gives back for its answer.
pub fn claim_result(answer: ClaimAnswer) -> (r: Result<bool, RepositoryError>)
    ensures
        match r {
            Ok(granted) => claim_result_of(answer) == Some(granted),
            Err(_) => claim_result_of(answer) is None,
        },
{
    match answer {
        ClaimAnswer::Granted => Ok(true),
        ClaimAnswer::Refused => Ok(false),
        ClaimAnswer::Failed => Err(
            RepositoryError::Unexpected(String::from_str("the lock could not be claimed")),
        ),
    }
}

/// The requests of a release in two requests, in order.
pub fn release_actions() -> (r: [ClaimAction; 2])
    ensures
        r@ == release_requests(),
{
    let r = [
        ClaimAction::SetCrawlersProcessing(false),
        ClaimAction::SetBenchmarksProcessing(false),
    ];
    assert(r@ =~= release_requests());
    r
}

/// Tells whether a job of a tenant is running.
pub trait ProcessingGuardReader {
    /// Whether a crawler or a benchmark of the tenant is marked as
    /// processing.
    fn has_any_processing_in_hub(&self, hub_id: HubId) -> Result<bool, RepositoryError>;
}

/// Sets and takes back the marks of a tenant's crawlers and benchmarks, and
/// with them claims and releases the tenant's lock.
pub trait ProcessingGuardWriter: ProcessingGuardReader {
    /// Marks every crawler of the tenant as `processing`. Gives the number
    /// of crawlers changed.
    fn set_hub_crawlers_processing(&self, hub_id: HubId, processing: bool) -> Result<
        usize,
        RepositoryError,
    >;

    /// Marks every benchmark of the tenant as `processing`. Gives the
    /// number of benchmarks changed.
    fn set_hub_benchmarks_processing(&self, hub_id: HubId, processing: bool) -> Result<
        usize,
        RepositoryError,
    >;

    /// Claims the tenant's lock and says whether the claim was granted.
    ///
    /// A store that has transactions should do this in one: where no
    /// crawler and no benchmark of the tenant is marked, mark them all.
    /// This form is for a store that has none: it asks three times, and
    /// what it asks and answers is what [`claim_next`] says.
    fn claim_hub_processing_lock(&self, hub_id: HubId) -> (r: Result<bool, RepositoryError>) {
        let (mut phase, mut action) = claim_start();
        loop
            invariant
                action is Answer <==> phase is Answered,
            decreases claim_steps_left(phase),
        {
            let event = match action {
                ClaimAction::CheckProcessing => match self.has_any_processing_in_hub(hub_id) {
                    Ok(active) => ClaimEvent::Active(active),
                    Err(_) => ClaimEvent::Failed,
                },
                ClaimAction::SetCrawlersProcessing(processing) => {
                    match self.set_hub_crawlers_processing(hub_id, processing) {
                        Ok(_) => ClaimEvent::Done,
                        Err(_) => ClaimEvent::Failed,
                    }
                },
                ClaimAction::SetBenchmarksProcessing(processing) => {
                    match self.set_hub_benchmarks_processing(hub_id, processing) {
                        Ok(_) => ClaimEvent::Done,
                        Err(_) => ClaimEvent::Failed,
                    }
                },
                ClaimAction::Answer(answer) => {
                    return claim_result(answer);
                },
            };
            proof {
                lemma_claim_step(phase, event);
            }
            let next = claim_step(phase, event);
            phase = next.0;
            action = next.1;
        }
    }

    /// Releases the tenant's lock: asks to take the crawlers' mark back and
    /// then the benchmarks', the second also where the first failed. Gives
    /// the number of rows changed, or the first error.
    fn release_hub_processing_lock(&self, hub_id: HubId) -> (r: Result<usize, RepositoryError>) {
        let requests = release_actions();
        let mut changed: usize = 0;
        let mut failure: Option<RepositoryError> = None;
        let mut i: usize = 0;
        while i < 2
            invariant
                i <= 2,
                requests@.len() == 2,
            decreases 2 - i,
        {
            let done = match requests[i] {
                ClaimAction::SetCrawlersProcessing(processing) => self.set_hub_crawlers_processing(
                    hub_id,
                    processing,
                ),
                ClaimAction::SetBenchmarksProcessing(processing) => {
                    self.set_hub_benchmarks_processing(hub_id, processing)
                },
                _ => Ok(0),
            };
            match done {
                Ok(n) => {
                    changed = changed.saturating_add(n);
                },
                Err(e) => {
                    if failure.is_none() {
                        failure = Some(e);
                    }
                },
            }
            i += 1;
        }
        match failure {
            Some(e) => Err(e),
            None => Ok(changed),
        }
    }
}

/// Whether `result` is what a run gives that gets the first `k` of the
/// answers `events` and in which the job, if it ran, gave `given`: the run
/// ends after these answers, `result` is what [`guard_result_of`] gives for
/// its end, and the job ran exactly where the claim was granted, in which
/// case the run was told what the job gave.
pub open spec fn run_gives<T>(
    events: Seq<GuardEvent>,
    k: int,
    given: Option<Result<T, ()>>,
    result: Result<Option<T>, ()>,
) -> bool {
    &&& 0 <= k <= events.len()
    &&& match action_after(events, k) {
        GuardAction::Finish(outcome) => result == guard_result_of(outcome, given),
        _ => false,
    }
    &&& match given {
        Some(gave) => k == 3 && events[0] == GuardEvent::Claimed(true) && events[1] == (if gave
            is Ok {
            GuardEvent::JobDone
        } else {
            GuardEvent::JobFailed
        }),
        None => k == 1 && events[0] != GuardEvent::Claimed(true),
    }
}

/// Runs `job` under the tenant's processing lock.
///
/// The lock is claimed. Where the claim is refused, another job of the
/// tenant is running: the job does not run and the result is `Ok(None)`.
/// Where the claim fails, the result is an error. Where it is granted, the
/// job runs, then the lock is released, and the result is the job's value
/// or, where the job failed, an error. Each step is the one that
/// [`guard_next`] gives for what came back, and the result is the one that
/// [`guard_result_of`] gives for the end of the run.
pub fn run_with_hub_processing_guard<R, F, T>(hub_id: HubId, repo: &R, job: F) -> (r: Result<
    Option<T>,
    (),
>) where R: ProcessingGuardReader + ProcessingGuardWriter, F: FnOnce() -> Result<T, ()>
    requires
        job.requires(()),
    ensures
        r matches Ok(Some(value)) ==> job.ensures((), Ok(value)),
        exists|events: Seq<GuardEvent>, k: int, given: Option<Result<T, ()>>|
            #![trigger run_gives(events, k, given, r)]
            run_gives(events, k, given, r) && (given matches Some(gave) ==> job.ensures((), gave)),
{
    let (phase, action) = guard_start();
    let claimed = match repo.claim_hub_processing_lock(hub_id) {
        Ok(granted) => GuardEvent::Claimed(granted),
        Err(_) => GuardEvent::Failed,
    };
    let (phase, action) = guard_step(phase, claimed);
    match action {
        GuardAction::RunJob => {
            let gave = job();
            let ran = match &gave {
                Ok(_) => GuardEvent::JobDone,
                Err(_) => GuardEvent::JobFailed,
            };
            let (phase, action) = guard_step(phase, ran);
            let released = match action {
                GuardAction::ReleaseLock => match repo.release_hub_processing_lock(hub_id) {
                    Ok(_) => GuardEvent::Done,
                    Err(_) => GuardEvent::Failed,
                },
                _ => GuardEvent::Failed,
            };
            let (phase, action) = guard_step(phase, released);
            let ghost events = seq![claimed, ran, released];
            let ghost given = Some(gave);
            proof {
                reveal_with_fuel(phase_after, 4);
                assert(action_after(events, 3) == action);
            }
            let r = match action {
                GuardAction::Finish(outcome) => guard_result(outcome, Some(gave)),
                _ => Err(()),
            };
            assert(run_gives(events, 3, given, r));
            r
        },
        GuardAction::Finish(outcome) => {
            let ghost events = seq![claimed];
            proof {
                reveal_with_fuel(phase_after, 2);
                assert(action_after(events, 1) == action);
            }
            let r = guard_result(outcome, None);
            assert(run_gives(events, 1, None::<Result<T, ()>>, r));
            r
        },
        _ => {
            assert(false);
            Err(())
        },
    }
}

} // verus!

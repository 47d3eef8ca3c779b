use std::sync::Mutex;

use pushkind_crawlers::category::{
    category_prompt, match_start, process_product_category_match, MatchAction, MatchEvent,
    MatchPhase, MatchStats,
};
use pushkind_crawlers::guard::{
    claim_result, claim_start, claim_step, guard_result, guard_start, guard_step,
    release_actions, run_with_hub_processing_guard, ClaimAction, ClaimAnswer, ClaimEvent,
    ClaimPhase, GuardAction, GuardEvent, GuardOutcome, GuardPhase, ProcessingGuardReader,
    ProcessingGuardWriter,
};
use pushkind_crawlers::matching::Hit;
use pushkind_crawlers::types::{HubId, RepositoryError};

#[derive(Default)]
struct GuardState {
    has_any_processing: bool,
    fail_set_benchmarks_true: bool,
    crawlers_processing: bool,
    benchmarks_processing: bool,
    events: Vec<String>,
}

#[derive(Default)]
struct FakeGuardRepo {
    state: Mutex<GuardState>,
}

impl FakeGuardRepo {
    fn with_state(has_any_processing: bool, fail_set_benchmarks_true: bool) -> Self {
        Self {
            state: Mutex::new(GuardState {
                has_any_processing,
                fail_set_benchmarks_true,
                ..Default::default()
            }),
        }
    }

    fn mark(&self, event: &str) {
        let mut state = self.state.lock().expect("state mutex poisoned");
        state.events.push(event.to_string());
    }

    fn flags(&self) -> (bool, bool) {
        let state = self.state.lock().expect("state mutex poisoned");
        (state.crawlers_processing, state.benchmarks_processing)
    }

    fn events(&self) -> Vec<String> {
        let state = self.state.lock().expect("state mutex poisoned");
        state.events.clone()
    }
}

impl ProcessingGuardReader for FakeGuardRepo {
    fn has_any_processing_in_hub(&self, _hub_id: HubId) -> Result<bool, RepositoryError> {
        let state = self.state.lock().expect("state mutex poisoned");
        Ok(state.has_any_processing)
    }
}

impl ProcessingGuardWriter for FakeGuardRepo {
    fn set_hub_crawlers_processing(
        &self,
        _hub_id: HubId,
        processing: bool,
    ) -> Result<usize, RepositoryError> {
        let mut state = self.state.lock().expect("state mutex poisoned");
        state.crawlers_processing = processing;
        state
            .events
            .push(format!("set_hub_crawlers_processing({processing})"));
        Ok(1)
    }

    fn set_hub_benchmarks_processing(
        &self,
        _hub_id: HubId,
        processing: bool,
    ) -> Result<usize, RepositoryError> {
        let mut state = self.state.lock().expect("state mutex poisoned");
        if processing && state.fail_set_benchmarks_true {
            state
                .events
                .push("set_hub_benchmarks_processing(true)->err".to_string());
            return Err(RepositoryError::Unexpected(
                "injected benchmark-guard failure".to_string(),
            ));
        }
        state.benchmarks_processing = processing;
        state
            .events
            .push(format!("set_hub_benchmarks_processing({processing})"));
        Ok(1)
    }
}

#[test]
fn category_prompt_uses_category_name_only() {
    assert_eq!(category_prompt("Green Tea"), "Green Tea");
}

#[test]
fn guard_skips_when_processing_is_already_active() {
    let repo = FakeGuardRepo::with_state(true, false);
    let hub_id = HubId::new(1).expect("valid hub id");

    let result = run_with_hub_processing_guard(hub_id, &repo, || Ok(()));

    assert!(matches!(result, Ok(None)));
    assert!(repo.events().is_empty());
    assert_eq!(repo.flags(), (false, false));
}

#[test]
fn guard_sets_true_before_job_and_resets_false_after_success() {
    let repo = FakeGuardRepo::with_state(false, false);
    let hub_id = HubId::new(1).expect("valid hub id");

    let result = run_with_hub_processing_guard(hub_id, &repo, || {
        repo.mark("job_started");
        assert_eq!(repo.flags(), (true, true));
        Ok("ok")
    });

    assert!(matches!(result, Ok(Some("ok"))));
    assert_eq!(repo.flags(), (false, false));
    assert_eq!(
        repo.events(),
        vec![
            "set_hub_crawlers_processing(true)".to_string(),
            "set_hub_benchmarks_processing(true)".to_string(),
            "job_started".to_string(),
            "set_hub_crawlers_processing(false)".to_string(),
            "set_hub_benchmarks_processing(false)".to_string(),
        ]
    );
}

#[test]
fn guard_resets_flags_after_failure() {
    let repo = FakeGuardRepo::with_state(false, false);
    let hub_id = HubId::new(1).expect("valid hub id");

    let result: Result<Option<()>, ()> = run_with_hub_processing_guard(hub_id, &repo, || {
        repo.mark("job_started");
        Err(())
    });

    assert!(matches!(result, Err(())));
    assert_eq!(repo.flags(), (false, false));
    assert_eq!(
        repo.events(),
        vec![
            "set_hub_crawlers_processing(true)".to_string(),
            "set_hub_benchmarks_processing(true)".to_string(),
            "job_started".to_string(),
            "set_hub_crawlers_processing(false)".to_string(),
            "set_hub_benchmarks_processing(false)".to_string(),
        ]
    );
}

#[test]
fn guard_rolls_back_crawlers_when_setting_benchmarks_true_fails() {
    let repo = FakeGuardRepo::with_state(false, true);
    let hub_id = HubId::new(1).expect("valid hub id");

    let result = run_with_hub_processing_guard(hub_id, &repo, || Ok(()));

    assert!(matches!(result, Err(())));
    assert_eq!(repo.flags(), (false, false));
    assert_eq!(
        repo.events(),
        vec![
            "set_hub_crawlers_processing(true)".to_string(),
            "set_hub_benchmarks_processing(true)->err".to_string(),
            "set_hub_crawlers_processing(false)".to_string(),
        ]
    );
}

#[test]
fn hub_id_is_not_negative() {
    assert_eq!(HubId::new(7).expect("valid hub id").get(), 7);
    assert_eq!(HubId::new(0).expect("valid hub id").get(), 0);
    assert_eq!(HubId::new(-1).unwrap_err().value, -1);
}

#[test]
fn guard_steps_follow_the_course_of_a_run() {
    let (phase, action) = guard_start();
    assert_eq!((phase, action), (GuardPhase::Claiming, GuardAction::ClaimLock));
    let (phase, action) = guard_step(phase, GuardEvent::Claimed(true));
    assert_eq!(action, GuardAction::RunJob);
    let (phase, action) = guard_step(phase, GuardEvent::JobFailed);
    assert_eq!(action, GuardAction::ReleaseLock);
    let (phase, action) = guard_step(phase, GuardEvent::Failed);
    assert_eq!(action, GuardAction::Finish(GuardOutcome::Failed));
    assert_eq!(phase, GuardPhase::Finished(GuardOutcome::Failed));
    assert_eq!(
        guard_step(phase, GuardEvent::Done),
        (phase, GuardAction::Finish(GuardOutcome::Failed))
    );

    let (phase, _) = guard_start();
    let (phase, _) = guard_step(phase, GuardEvent::Claimed(true));
    let (phase, action) = guard_step(phase, GuardEvent::JobDone);
    assert_eq!(action, GuardAction::ReleaseLock);
    assert_eq!(
        guard_step(phase, GuardEvent::Failed).1,
        GuardAction::Finish(GuardOutcome::Completed)
    );
}

#[test]
fn guard_ends_at_once_without_the_lock() {
    let (phase, _) = guard_start();
    assert_eq!(
        guard_step(phase, GuardEvent::Claimed(false)).1,
        GuardAction::Finish(GuardOutcome::Skipped)
    );
    assert_eq!(
        guard_step(phase, GuardEvent::Failed).1,
        GuardAction::Finish(GuardOutcome::Failed)
    );
    assert_eq!(
        guard_step(phase, GuardEvent::Done).1,
        GuardAction::Finish(GuardOutcome::Failed)
    );
}

#[test]
fn guard_result_follows_outcome_and_job() {
    assert_eq!(guard_result::<i32>(GuardOutcome::Skipped, None), Ok(None));
    assert_eq!(guard_result(GuardOutcome::Skipped, Some(Ok(1))), Ok(None));
    assert_eq!(guard_result(GuardOutcome::Completed, Some(Ok(7))), Ok(Some(7)));
    assert_eq!(guard_result::<i32>(GuardOutcome::Completed, Some(Err(()))), Err(()));
    assert_eq!(guard_result::<i32>(GuardOutcome::Completed, None), Err(()));
    assert_eq!(guard_result(GuardOutcome::Failed, Some(Ok(7))), Err(()));
    assert_eq!(guard_result::<i32>(GuardOutcome::Failed, None), Err(()));
}

#[test]
fn claim_in_three_requests_marks_both_or_nothing() {
    let (phase, action) = claim_start();
    assert_eq!(action, ClaimAction::CheckProcessing);
    assert_eq!(
        claim_step(phase, ClaimEvent::Active(true)).1,
        ClaimAction::Answer(ClaimAnswer::Refused)
    );
    assert_eq!(
        claim_step(phase, ClaimEvent::Failed).1,
        ClaimAction::Answer(ClaimAnswer::Failed)
    );
    let (phase, action) = claim_step(phase, ClaimEvent::Active(false));
    assert_eq!(action, ClaimAction::SetCrawlersProcessing(true));
    assert_eq!(
        claim_step(phase, ClaimEvent::Failed).1,
        ClaimAction::Answer(ClaimAnswer::Failed)
    );
    let (phase, action) = claim_step(phase, ClaimEvent::Done);
    assert_eq!(action, ClaimAction::SetBenchmarksProcessing(true));
    assert_eq!(
        claim_step(phase, ClaimEvent::Done),
        (ClaimPhase::Answered(ClaimAnswer::Granted), ClaimAction::Answer(ClaimAnswer::Granted))
    );
    let (phase, action) = claim_step(phase, ClaimEvent::Failed);
    assert_eq!(action, ClaimAction::SetCrawlersProcessing(false));
    assert_eq!(
        claim_step(phase, ClaimEvent::Done).1,
        ClaimAction::Answer(ClaimAnswer::Failed)
    );
    assert_eq!(
        release_actions(),
        [ClaimAction::SetCrawlersProcessing(false), ClaimAction::SetBenchmarksProcessing(false)]
    );
    assert!(matches!(claim_result(ClaimAnswer::Granted), Ok(true)));
    assert!(matches!(claim_result(ClaimAnswer::Refused), Ok(false)));
    assert!(claim_result(ClaimAnswer::Failed).is_err());
}

#[test]
fn store_claims_and_releases_in_separate_requests_by_default() {
    let repo = FakeGuardRepo::with_state(false, false);
    let hub_id = HubId::new(1).expect("valid hub id");
    assert!(matches!(repo.claim_hub_processing_lock(hub_id), Ok(true)));
    assert_eq!(repo.flags(), (true, true));
    assert!(matches!(repo.release_hub_processing_lock(hub_id), Ok(2)));
    assert_eq!(repo.flags(), (false, false));
    assert_eq!(
        repo.events(),
        vec![
            "set_hub_crawlers_processing(true)".to_string(),
            "set_hub_benchmarks_processing(true)".to_string(),
            "set_hub_crawlers_processing(false)".to_string(),
            "set_hub_benchmarks_processing(false)".to_string(),
        ]
    );
    let busy = FakeGuardRepo::with_state(true, false);
    assert!(matches!(busy.claim_hub_processing_lock(hub_id), Ok(false)));
    assert!(busy.events().is_empty());
    let broken = FakeGuardRepo::with_state(false, true);
    assert!(broken.claim_hub_processing_lock(hub_id).is_err());
    assert_eq!(broken.flags(), (false, false));
}

/// A store that claims in one step.
struct AtomicRepo {
    held: Mutex<bool>,
    claims: Mutex<usize>,
}

impl ProcessingGuardReader for AtomicRepo {
    fn has_any_processing_in_hub(&self, _hub_id: HubId) -> Result<bool, RepositoryError> {
        Ok(*self.held.lock().expect("state mutex poisoned"))
    }
}

impl ProcessingGuardWriter for AtomicRepo {
    fn set_hub_crawlers_processing(&self, _: HubId, _: bool) -> Result<usize, RepositoryError> {
        panic!("the lock is claimed in one step")
    }

    fn set_hub_benchmarks_processing(&self, _: HubId, _: bool) -> Result<usize, RepositoryError> {
        panic!("the lock is claimed in one step")
    }

    fn claim_hub_processing_lock(&self, _hub_id: HubId) -> Result<bool, RepositoryError> {
        *self.claims.lock().expect("state mutex poisoned") += 1;
        let mut held = self.held.lock().expect("state mutex poisoned");
        let granted = !*held;
        *held = true;
        Ok(granted)
    }

    fn release_hub_processing_lock(&self, _hub_id: HubId) -> Result<usize, RepositoryError> {
        *self.held.lock().expect("state mutex poisoned") = false;
        Ok(1)
    }
}

#[test]
fn guard_uses_the_claim_of_the_store() {
    let repo = AtomicRepo { held: Mutex::new(false), claims: Mutex::new(0) };
    let hub_id = HubId::new(7).expect("valid hub id");
    let result = run_with_hub_processing_guard(hub_id, &repo, || {
        // A second run that starts while the first holds the lock is skipped.
        let inner: Result<Option<()>, ()> = run_with_hub_processing_guard(hub_id, &repo, || Ok(()));
        assert!(matches!(inner, Ok(None)));
        Ok(5)
    });
    assert!(matches!(result, Ok(Some(5))));
    assert_eq!(*repo.claims.lock().expect("state mutex poisoned"), 2);
    assert!(!*repo.held.lock().expect("state mutex poisoned"));
}

/// Runs a category matching over products with the given nearest
/// categories; `stored` says which vectors are in the store.
fn run_match(
    products_per_crawler: &[usize],
    categories: usize,
    nearest: &[Option<Hit>],
    stored: bool,
) -> (Vec<MatchAction>, Option<MatchStats>) {
    let (mut state, mut action) = match_start();
    let mut actions = vec![action];
    loop {
        let event = match action {
            MatchAction::InitEmbedder => MatchEvent::Done,
            MatchAction::ListCrawlers => MatchEvent::Count(products_per_crawler.len()),
            MatchAction::ListProducts(crawler) => MatchEvent::Count(products_per_crawler[crawler]),
            MatchAction::ListCategories => MatchEvent::Count(categories),
            MatchAction::EmbedCategory(_) => MatchEvent::Embedding(!stored),
            MatchAction::EmbedProduct(_) => MatchEvent::Embedding(!stored),
            MatchAction::FindCategory(product) => MatchEvent::Nearest(nearest[product]),
            MatchAction::AssignCategory(_, _) => MatchEvent::Done,
            MatchAction::Finish(stats) => return (actions, stats),
        };
        let next = process_product_category_match(state, event);
        state = next.0;
        action = next.1;
        actions.push(action);
    }
}

#[test]
fn category_match_assigns_every_product() {
    let near = Hit { key: 5, distance: 100_000_000 };
    let far = Hit { key: 6, distance: 350_000_000 };
    let odd = Hit { key: 5_000_000_000, distance: 0 };
    let (actions, stats) = run_match(&[2, 0, 2], 3, &[Some(near), Some(far), Some(odd), None], false);
    let stats = stats.expect("the job succeeds");
    let assignments: Vec<MatchAction> = actions
        .iter()
        .copied()
        .filter(|a| matches!(a, MatchAction::AssignCategory(_, _)))
        .collect();
    assert_eq!(
        assignments,
        vec![
            MatchAction::AssignCategory(0, Some(5)),
            MatchAction::AssignCategory(1, None),
            MatchAction::AssignCategory(2, None),
            MatchAction::AssignCategory(3, None),
        ]
    );
    assert_eq!(
        stats,
        MatchStats {
            categories_loaded: 3,
            products_loaded: 4,
            category_embeddings_generated: 3,
            product_embeddings_generated: 4,
            matched: 1,
            unmatched: 3,
            skipped_below_threshold: 1,
            skipped_invalid_category_id: 1,
            skipped_no_category_candidate: 1,
        }
    );
}

#[test]
fn category_match_follows_the_order_of_the_steps() {
    let near = Hit { key: 9, distance: 200_000_000 };
    let (actions, stats) = run_match(&[1], 1, &[Some(near)], true);
    assert_eq!(
        actions,
        vec![
            MatchAction::InitEmbedder,
            MatchAction::ListCrawlers,
            MatchAction::ListProducts(0),
            MatchAction::ListCategories,
            MatchAction::EmbedCategory(0),
            MatchAction::EmbedProduct(0),
            MatchAction::FindCategory(0),
            MatchAction::AssignCategory(0, Some(9)),
            MatchAction::Finish(stats),
        ]
    );
    let stats = stats.expect("the job succeeds");
    assert_eq!(stats.category_embeddings_generated, 0);
    assert_eq!(stats.product_embeddings_generated, 0);
    assert_eq!((stats.matched, stats.unmatched), (1, 0));
}

#[test]
fn category_match_without_categories_clears_every_product() {
    let (actions, stats) = run_match(&[3], 0, &[], true);
    assert!(actions.iter().all(|a| !matches!(a, MatchAction::FindCategory(_))));
    let assignments: Vec<MatchAction> = actions
        .iter()
        .copied()
        .filter(|a| matches!(a, MatchAction::AssignCategory(_, _)))
        .collect();
    assert_eq!(
        assignments,
        vec![
            MatchAction::AssignCategory(0, None),
            MatchAction::AssignCategory(1, None),
            MatchAction::AssignCategory(2, None),
        ]
    );
    let stats = stats.expect("the job succeeds");
    assert_eq!((stats.matched, stats.unmatched), (0, 3));
    assert_eq!(stats.skipped_no_category_candidate, 3);
}

#[test]
fn category_match_without_products_ends_at_once() {
    let (actions, stats) = run_match(&[], 2, &[], false);
    assert_eq!(
        actions,
        vec![
            MatchAction::InitEmbedder,
            MatchAction::ListCrawlers,
            MatchAction::ListCategories,
            MatchAction::EmbedCategory(0),
            MatchAction::EmbedCategory(1),
            MatchAction::Finish(stats),
        ]
    );
    assert_eq!(stats.expect("the job succeeds").products_loaded, 0);
}

#[test]
fn category_match_stops_at_the_first_failure() {
    let (state, _) = match_start();
    let (state, action) = process_product_category_match(state, MatchEvent::Failed);
    assert_eq!(action, MatchAction::Finish(None));
    assert_eq!(state.phase, MatchPhase::Finished(false));

    let (state, _) = match_start();
    let (state, _) = process_product_category_match(state, MatchEvent::Done);
    let (state, _) = process_product_category_match(state, MatchEvent::Count(1));
    let (state, _) = process_product_category_match(state, MatchEvent::Count(1));
    let (state, action) = process_product_category_match(state, MatchEvent::Count(1));
    assert_eq!(action, MatchAction::EmbedCategory(0));
    let (state, action) = process_product_category_match(state, MatchEvent::Failed);
    assert_eq!(action, MatchAction::Finish(None));
    assert_eq!(
        process_product_category_match(state, MatchEvent::Done).1,
        MatchAction::Finish(None)
    );
}

#[test]
fn category_match_treats_an_unfitting_answer_as_failure() {
    let (state, _) = match_start();
    let (_, action) = process_product_category_match(state, MatchEvent::Count(3));
    assert_eq!(action, MatchAction::Finish(None));
}

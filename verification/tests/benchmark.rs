use pushkind_crawlers::benchmark::{
    benchmark_start, process_benchmark, BenchmarkAction, BenchmarkEvent, BenchmarkOutcome,
};
use pushkind_crawlers::matching::{
    assign_category, is_near_enough, select_associations, Assignment, Association, Hit,
    DISTANCE_SCALE, SIMILARITY_THRESHOLD, TOP_K,
};

fn billionths(distance: f64) -> u32 {
    (distance * 1_000_000_000.0).round() as u32
}

#[test]
fn threshold_is_four_fifths() {
    assert_eq!(SIMILARITY_THRESHOLD as f64 / DISTANCE_SCALE as f64, 0.8);
    assert_eq!(TOP_K, 10);
    assert!(is_near_enough(0));
    assert!(is_near_enough(200_000_000));
    assert!(!is_near_enough(200_000_001));
    assert!(!is_near_enough(1_500_000_000));
    assert!(!is_near_enough(u32::MAX));
}

#[test]
fn benchmark_keeps_the_near_ones_of_the_top_ten() {
    let distances = [0.05, 0.10, 0.15, 0.19, 0.21, 0.22, 0.30, 0.40, 0.50, 0.60, 0.70, 0.95];
    let hits: Vec<Hit> = distances
        .iter()
        .enumerate()
        .map(|(i, d)| Hit { key: 100 + i as u64, distance: billionths(*d) })
        .collect();
    // The search gives the ten nearest.
    let top: Vec<Hit> = hits.iter().copied().take(TOP_K).collect();
    let links = select_associations(&top);
    assert_eq!(
        links,
        vec![
            Association { product_id: 100, distance: billionths(0.05) },
            Association { product_id: 101, distance: billionths(0.10) },
            Association { product_id: 102, distance: billionths(0.15) },
            Association { product_id: 103, distance: billionths(0.19) },
        ]
    );
    assert_eq!(select_associations(&hits), links);
}

#[test]
fn a_distance_of_one_fifth_is_still_near_enough() {
    let hits = vec![
        Hit { key: 1, distance: billionths(0.20) },
        Hit { key: 2, distance: billionths(0.20) + 1 },
    ];
    assert_eq!(
        select_associations(&hits),
        vec![Association { product_id: 1, distance: 200_000_000 }]
    );
}

#[test]
fn no_more_than_ten_hits_count() {
    let hits: Vec<Hit> = (0..25).map(|i| Hit { key: i, distance: 1_000 }).collect();
    let links = select_associations(&hits);
    assert_eq!(links.len(), 10);
    assert_eq!(links[9].product_id, 9);
    assert!(select_associations(&Vec::new()).is_empty());
}

#[test]
fn hits_with_keys_that_are_no_identities_are_skipped() {
    let hits = vec![
        Hit { key: i32::MAX as u64 + 1, distance: 0 },
        Hit { key: u64::MAX, distance: 0 },
        Hit { key: i32::MAX as u64, distance: 0 },
        Hit { key: 0, distance: 0 },
    ];
    assert_eq!(
        select_associations(&hits),
        vec![
            Association { product_id: i32::MAX, distance: 0 },
            Association { product_id: 0, distance: 0 },
        ]
    );
}

#[test]
fn nearest_category_is_assigned_when_near_enough() {
    assert_eq!(assign_category(None), Assignment::NoCandidate);
    assert_eq!(
        assign_category(Some(Hit { key: 3, distance: 200_000_000 })),
        Assignment::Assigned(3)
    );
    assert_eq!(
        assign_category(Some(Hit { key: 3, distance: 200_000_001 })),
        Assignment::BelowThreshold
    );
    assert_eq!(
        assign_category(Some(Hit { key: 1 << 40, distance: 0 })),
        Assignment::InvalidId
    );
    assert_eq!(
        assign_category(Some(Hit { key: 1 << 40, distance: 900_000_000 })),
        Assignment::BelowThreshold
    );
}

/// Runs a benchmark matching; `products` gives the number of products of
/// each crawler, `chosen` the number of links chosen for each.
fn run_benchmark(products: &[usize], chosen: &[usize]) -> (Vec<BenchmarkAction>, BenchmarkOutcome) {
    let (mut state, mut action) = benchmark_start(false);
    let mut actions = vec![action];
    loop {
        let event = match action {
            BenchmarkAction::GetBenchmark => BenchmarkEvent::Loaded(false),
            BenchmarkAction::SetProcessing => BenchmarkEvent::Done,
            BenchmarkAction::InitEmbedder => BenchmarkEvent::Done,
            BenchmarkAction::EmbedBenchmark => BenchmarkEvent::Embedding(true),
            BenchmarkAction::ListCrawlers => BenchmarkEvent::Count(products.len()),
            BenchmarkAction::RemoveAssociations => BenchmarkEvent::Done,
            BenchmarkAction::ListProducts(crawler) => BenchmarkEvent::Count(products[crawler]),
            BenchmarkAction::EmbedProduct(_, _) => BenchmarkEvent::Embedding(false),
            BenchmarkAction::Search(crawler) => BenchmarkEvent::Selected(chosen[crawler]),
            BenchmarkAction::WriteAssociation(_, _) => BenchmarkEvent::Done,
            BenchmarkAction::UpdateStats => BenchmarkEvent::Done,
            BenchmarkAction::Finish(outcome) => return (actions, outcome),
        };
        let next = process_benchmark(state, event);
        state = next.0;
        action = next.1;
        actions.push(action);
    }
}

#[test]
fn benchmark_runs_crawler_by_crawler() {
    let (actions, outcome) = run_benchmark(&[2, 0, 1], &[1, 0, 2]);
    assert_eq!(outcome, BenchmarkOutcome::Completed(3));
    assert_eq!(
        actions,
        vec![
            BenchmarkAction::GetBenchmark,
            BenchmarkAction::SetProcessing,
            BenchmarkAction::InitEmbedder,
            BenchmarkAction::EmbedBenchmark,
            BenchmarkAction::ListCrawlers,
            BenchmarkAction::RemoveAssociations,
            BenchmarkAction::ListProducts(0),
            BenchmarkAction::EmbedProduct(0, 0),
            BenchmarkAction::EmbedProduct(0, 1),
            BenchmarkAction::Search(0),
            BenchmarkAction::WriteAssociation(0, 0),
            BenchmarkAction::ListProducts(1),
            BenchmarkAction::ListProducts(2),
            BenchmarkAction::EmbedProduct(2, 0),
            BenchmarkAction::Search(2),
            BenchmarkAction::WriteAssociation(2, 0),
            BenchmarkAction::WriteAssociation(2, 1),
            BenchmarkAction::UpdateStats,
            BenchmarkAction::Finish(BenchmarkOutcome::Completed(3)),
        ]
    );
}

#[test]
fn benchmark_writes_at_most_ten_links_for_each_crawler() {
    let (actions, outcome) = run_benchmark(&[12, 30, 5], &[10, 10, 5]);
    assert_eq!(outcome, BenchmarkOutcome::Completed(25));
    let written = actions
        .iter()
        .filter(|a| matches!(a, BenchmarkAction::WriteAssociation(_, _)))
        .count();
    assert_eq!(written, 25);
    assert!(written <= TOP_K * 3);
}

#[test]
fn benchmark_that_is_processing_is_left_alone() {
    let (state, action) = benchmark_start(false);
    assert_eq!(action, BenchmarkAction::GetBenchmark);
    let (_, action) = process_benchmark(state, BenchmarkEvent::Loaded(true));
    assert_eq!(action, BenchmarkAction::Finish(BenchmarkOutcome::AlreadyRunning));
}

#[test]
fn benchmark_without_crawlers_only_updates_statistics() {
    let (actions, outcome) = run_benchmark(&[], &[]);
    assert_eq!(outcome, BenchmarkOutcome::Completed(0));
    assert_eq!(
        &actions[4..],
        &[
            BenchmarkAction::ListCrawlers,
            BenchmarkAction::RemoveAssociations,
            BenchmarkAction::UpdateStats,
            BenchmarkAction::Finish(BenchmarkOutcome::Completed(0)),
        ]
    );
}

fn fail_while_embedding(reset_on_failure: bool) -> Vec<BenchmarkAction> {
    let (mut state, mut action) = benchmark_start(reset_on_failure);
    let mut actions = vec![action];
    loop {
        let event = match action {
            BenchmarkAction::GetBenchmark => BenchmarkEvent::Loaded(false),
            BenchmarkAction::EmbedBenchmark => BenchmarkEvent::Failed,
            BenchmarkAction::Finish(_) => return actions,
            _ => BenchmarkEvent::Done,
        };
        let next = process_benchmark(state, event);
        state = next.0;
        action = next.1;
        actions.push(action);
    }
}

#[test]
fn failed_benchmark_stops_and_leaves_the_mark() {
    assert_eq!(
        fail_while_embedding(false),
        vec![
            BenchmarkAction::GetBenchmark,
            BenchmarkAction::SetProcessing,
            BenchmarkAction::InitEmbedder,
            BenchmarkAction::EmbedBenchmark,
            BenchmarkAction::Finish(BenchmarkOutcome::Failed),
        ]
    );
}

#[test]
fn failed_benchmark_takes_the_mark_back_where_that_is_wanted() {
    assert_eq!(
        fail_while_embedding(true),
        vec![
            BenchmarkAction::GetBenchmark,
            BenchmarkAction::SetProcessing,
            BenchmarkAction::InitEmbedder,
            BenchmarkAction::EmbedBenchmark,
            BenchmarkAction::UpdateStats,
            BenchmarkAction::Finish(BenchmarkOutcome::Failed),
        ]
    );
}

#[test]
fn benchmark_refuses_more_than_ten_links() {
    let (mut state, mut action) = benchmark_start(false);
    loop {
        let event = match action {
            BenchmarkAction::GetBenchmark => BenchmarkEvent::Loaded(false),
            BenchmarkAction::EmbedBenchmark => BenchmarkEvent::Embedding(false),
            BenchmarkAction::ListCrawlers => BenchmarkEvent::Count(1),
            BenchmarkAction::ListProducts(_) => BenchmarkEvent::Count(1),
            BenchmarkAction::EmbedProduct(_, _) => BenchmarkEvent::Embedding(false),
            BenchmarkAction::Search(_) => BenchmarkEvent::Selected(11),
            BenchmarkAction::Finish(outcome) => {
                assert_eq!(outcome, BenchmarkOutcome::Failed);
                return;
            }
            BenchmarkAction::WriteAssociation(_, _) => panic!("no link is written"),
            _ => BenchmarkEvent::Done,
        };
        let next = process_benchmark(state, event);
        state = next.0;
        action = next.1;
    }
}

use pushkind_crawlers::config::ServerConfig;
use pushkind_crawlers::crawl::{
    crawl_start, persistence_of, process_crawler, store_of, CrawlAction, CrawlEvent,
    CrawlOutcome, Persistence, Store, CONCURRENCY,
};
use pushkind_crawlers::message::{job_of, CrawlerSelector, Job, ZMQMessage};

fn run_crawl(selector: &str, urls: &[&str], events: &[(CrawlAction, CrawlEvent)]) -> Vec<CrawlAction> {
    let urls: Vec<String> = urls.iter().map(|u| u.to_string()).collect();
    let (mut state, mut action) = crawl_start(selector, &urls);
    let mut actions = vec![action];
    loop {
        if let CrawlAction::Finish(_) = action {
            return actions;
        }
        let event = events
            .iter()
            .find(|(a, _)| *a == action)
            .map(|(_, e)| *e)
            .unwrap_or(match action {
                CrawlAction::GetCrawler => CrawlEvent::Loaded(false),
                CrawlAction::ClaimLock => CrawlEvent::Claimed(true),
                _ => CrawlEvent::Done,
            });
        let next = process_crawler(state, event);
        state = next.0;
        action = next.1;
        actions.push(action);
    }
}

#[test]
fn selectors_name_the_stores() {
    assert_eq!(store_of("rusteaco"), Some(Store::Rusteaco));
    assert_eq!(store_of("101tea"), Some(Store::Tea101));
    assert_eq!(store_of("gutenberg"), Some(Store::Gutenberg));
    assert_eq!(store_of("Rusteaco"), None);
    assert_eq!(store_of(""), None);
    assert_eq!(CONCURRENCY, 5);
}

#[test]
fn message_without_urls_is_a_full_replacement() {
    assert_eq!(persistence_of(&vec![]), Persistence::FullReplace);
    assert_eq!(persistence_of(&vec!["https://x/p".to_string()]), Persistence::Patch);
}

#[test]
fn full_replacement_deletes_then_crawls_then_inserts() {
    assert_eq!(
        run_crawl("rusteaco", &[], &[]),
        vec![
            CrawlAction::GetCrawler,
            CrawlAction::ClaimLock,
            CrawlAction::DeleteProducts,
            CrawlAction::CrawlStore,
            CrawlAction::CreateProducts,
            CrawlAction::UpdateStats,
            CrawlAction::ReleaseLock,
            CrawlAction::Finish(CrawlOutcome::Completed),
        ]
    );
}

#[test]
fn patch_fetches_then_upserts() {
    assert_eq!(
        run_crawl("101tea", &["https://101tea.ru/p1"], &[]),
        vec![
            CrawlAction::GetCrawler,
            CrawlAction::ClaimLock,
            CrawlAction::FetchProducts,
            CrawlAction::UpdateProducts,
            CrawlAction::UpdateStats,
            CrawlAction::ReleaseLock,
            CrawlAction::Finish(CrawlOutcome::Completed),
        ]
    );
}

#[test]
fn crawler_that_is_processing_is_left_alone() {
    assert_eq!(
        run_crawl("rusteaco", &[], &[(CrawlAction::GetCrawler, CrawlEvent::Loaded(true))]),
        vec![CrawlAction::GetCrawler, CrawlAction::Finish(CrawlOutcome::AlreadyRunning)]
    );
}

#[test]
fn crawl_under_a_held_lock_changes_nothing() {
    assert_eq!(
        run_crawl("rusteaco", &[], &[(CrawlAction::ClaimLock, CrawlEvent::Claimed(false))]),
        vec![
            CrawlAction::GetCrawler,
            CrawlAction::ClaimLock,
            CrawlAction::Finish(CrawlOutcome::AlreadyRunning),
        ]
    );
    assert_eq!(
        run_crawl("rusteaco", &["u"], &[(CrawlAction::ClaimLock, CrawlEvent::Failed)]),
        vec![
            CrawlAction::GetCrawler,
            CrawlAction::ClaimLock,
            CrawlAction::Finish(CrawlOutcome::Failed),
        ]
    );
}

#[test]
fn unknown_selector_does_nothing() {
    assert_eq!(
        run_crawl("nowhere", &[], &[]),
        vec![CrawlAction::GetCrawler, CrawlAction::Finish(CrawlOutcome::UnknownCrawler)]
    );
}

#[test]
fn crawler_that_cannot_be_loaded_fails() {
    assert_eq!(
        run_crawl("rusteaco", &[], &[(CrawlAction::GetCrawler, CrawlEvent::Failed)]),
        vec![CrawlAction::GetCrawler, CrawlAction::Finish(CrawlOutcome::Failed)]
    );
}

#[test]
fn failed_delete_stops_the_crawl_and_releases_the_lock() {
    assert_eq!(
        run_crawl("rusteaco", &[], &[(CrawlAction::DeleteProducts, CrawlEvent::Failed)]),
        vec![
            CrawlAction::GetCrawler,
            CrawlAction::ClaimLock,
            CrawlAction::DeleteProducts,
            CrawlAction::ReleaseLock,
            CrawlAction::Finish(CrawlOutcome::Failed),
        ]
    );
}

#[test]
fn failed_crawl_or_fetch_releases_the_lock() {
    assert_eq!(
        run_crawl("rusteaco", &[], &[(CrawlAction::CrawlStore, CrawlEvent::Failed)]),
        vec![
            CrawlAction::GetCrawler,
            CrawlAction::ClaimLock,
            CrawlAction::DeleteProducts,
            CrawlAction::CrawlStore,
            CrawlAction::ReleaseLock,
            CrawlAction::Finish(CrawlOutcome::Failed),
        ]
    );
    assert_eq!(
        run_crawl("rusteaco", &["u"], &[(CrawlAction::FetchProducts, CrawlEvent::Failed)]),
        vec![
            CrawlAction::GetCrawler,
            CrawlAction::ClaimLock,
            CrawlAction::FetchProducts,
            CrawlAction::ReleaseLock,
            CrawlAction::Finish(CrawlOutcome::Failed),
        ]
    );
}

#[test]
fn failed_insert_does_not_stop_the_crawl() {
    assert_eq!(
        run_crawl("gutenberg", &[], &[(CrawlAction::CreateProducts, CrawlEvent::Failed)]),
        vec![
            CrawlAction::GetCrawler,
            CrawlAction::ClaimLock,
            CrawlAction::DeleteProducts,
            CrawlAction::CrawlStore,
            CrawlAction::CreateProducts,
            CrawlAction::UpdateStats,
            CrawlAction::ReleaseLock,
            CrawlAction::Finish(CrawlOutcome::Completed),
        ]
    );
}

#[test]
fn failed_statistics_or_release_fail_the_job() {
    assert_eq!(
        run_crawl("rusteaco", &["u"], &[(CrawlAction::UpdateStats, CrawlEvent::Failed)]),
        vec![
            CrawlAction::GetCrawler,
            CrawlAction::ClaimLock,
            CrawlAction::FetchProducts,
            CrawlAction::UpdateProducts,
            CrawlAction::UpdateStats,
            CrawlAction::ReleaseLock,
            CrawlAction::Finish(CrawlOutcome::Failed),
        ]
    );
    assert_eq!(
        run_crawl("rusteaco", &["u"], &[(CrawlAction::ReleaseLock, CrawlEvent::Failed)])
            .last()
            .copied(),
        Some(CrawlAction::Finish(CrawlOutcome::Failed))
    );
}

#[test]
fn messages_start_jobs() {
    match job_of(ZMQMessage::Crawler(CrawlerSelector::Selector("rusteaco".to_string()))) {
        Job::Crawl { selector, urls } => {
            assert_eq!(selector, "rusteaco");
            assert!(urls.is_empty());
        }
        other => panic!("unexpected job {other:?}"),
    }
    match job_of(ZMQMessage::Crawler(CrawlerSelector::SelectorProducts((
        "101tea".to_string(),
        vec!["a".to_string(), "b".to_string()],
    )))) {
        Job::Crawl { selector, urls } => {
            assert_eq!(selector, "101tea");
            assert_eq!(urls, vec!["a".to_string(), "b".to_string()]);
        }
        other => panic!("unexpected job {other:?}"),
    }
    assert!(matches!(
        job_of(ZMQMessage::Benchmark(12)),
        Job::Benchmark { benchmark_id: 12 }
    ));
    match job_of(ZMQMessage::ProductCategoryMatch(7)) {
        Job::CategoryMatch { hub_id } => assert_eq!(hub_id.get(), 7),
        other => panic!("unexpected job {other:?}"),
    }
    assert!(matches!(job_of(ZMQMessage::ProductCategoryMatch(-7)), Job::Rejected));
}

#[test]
fn settings_have_defaults() {
    let config = ServerConfig::from_settings(None, None);
    assert_eq!(config.database_url, "app.db");
    assert_eq!(config.zmq_crawlers_sub, "tcp://127.0.0.1:5555");
    let config = ServerConfig::from_settings(
        Some("db.sqlite".to_string()),
        Some("tcp://0.0.0.0:1".to_string()),
    );
    assert_eq!(config.database_url, "db.sqlite");
    assert_eq!(config.zmq_crawlers_sub, "tcp://0.0.0.0:1");
}

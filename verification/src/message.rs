//! The control messages that start jobs.

use vstd::prelude::*;
use crate::product::texts;
use crate::types::HubId;

verus! {

/// A message received over the control socket.
#[derive(Debug)]
pub enum ZMQMessage {
    /// Run the crawler that the selector names.
    Crawler(CrawlerSelector),
    /// Match the benchmark with this identity against the products of its
    /// tenant.
    Benchmark(i32),
    /// Assign the products of the tenant with this identity to categories.
    ProductCategoryMatch(i32),
}

/// Names a crawler, and optionally the product pages to crawl.
#[derive(Debug)]
pub enum CrawlerSelector {
    /// Crawl the whole store and replace the crawler's products.
    Selector(String),
    /// Crawl the given product pages and patch the crawler's products.
    SelectorProducts((String, Vec<String>)),
}

/// The job that a message starts.
#[derive(Debug)]
pub enum Job {
    /// A crawl of the store `selector`; with no `urls` a full replacement,
    /// otherwise a patch over these pages.
    Crawl { selector: String, urls: Vec<String> },
    /// The matching of a benchmark.
    Benchmark { benchmark_id: i32 },
    /// The category matching of a tenant.
    CategoryMatch { hub_id: HubId },
    /// The message names a tenant that cannot exist: no job.
    Rejected,
}

impl CrawlerSelector {
    /// The name of the crawler.
    pub open spec fn selector(&self) -> Seq<char> {
        match self {
            CrawlerSelector::Selector(name) => name@,
            CrawlerSelector::SelectorProducts(pair) => pair.0@,
        }
    }

    /// The product pages that are named; none for a crawl of the whole
    /// store.
    pub open spec fn urls(&self) -> Seq<Seq<char>> {
        match self {
            CrawlerSelector::Selector(_) => Seq::empty(),
            CrawlerSelector::SelectorProducts(pair) => texts(pair.1@),
        }
    }
}

/// The job that a message starts: a crawl for a crawler message, with the
/// pages that it names; the matching of a benchmark; the category matching
/// of a tenant, where the tenant's identity is one.
pub fn job_of(message: ZMQMessage) -> (r: Job)
    ensures
        match message {
            ZMQMessage::Crawler(c) => r matches Job::Crawl { selector, urls } && selector@
                == c.selector() && texts(urls@) == c.urls(),
            ZMQMessage::Benchmark(id) => r matches Job::Benchmark { benchmark_id }
                && benchmark_id == id,
            ZMQMessage::ProductCategoryMatch(id) => if id >= 0 {
                r matches Job::CategoryMatch { hub_id } && hub_id@ == id
            } else {
                r is Rejected
            },
        },
{
    match message {
        ZMQMessage::Crawler(CrawlerSelector::Selector(selector)) => {
            let urls: Vec<String> = Vec::new();
            assert(texts(urls@) =~= Seq::<Seq<char>>::empty());
            Job::Crawl { selector, urls }
        },
        ZMQMessage::Crawler(CrawlerSelector::SelectorProducts(pair)) => {
            let (selector, urls) = pair;
            Job::Crawl { selector, urls }
        },
        ZMQMessage::Benchmark(benchmark_id) => Job::Benchmark { benchmark_id },
        ZMQMessage::ProductCategoryMatch(id) => match HubId::new(id) {
            Ok(hub_id) => Job::CategoryMatch { hub_id },
            Err(_) => Job::Rejected,
        },
    }
}

} // verus!

//! What is made of the nearest neighbours that a search found: which of
//! them are near enough to be recorded.
//!
//! A cosine distance is held in billionths, so a distance of 0.2 is
//! 200,000,000. Similarity is one minus the distance.

use vstd::prelude::*;

verus! {

/// One, in the unit that distances are held in.
pub const DISTANCE_SCALE: u32 = 1_000_000_000;

/// The least similarity at which a match is recorded: 0.80.
pub const SIMILARITY_THRESHOLD: u32 = 800_000_000;

/// The number of neighbours that are asked for per crawler when a benchmark
/// is matched.
pub const TOP_K: usize = 10;

/// A neighbour that a search found.
#[derive(Clone, Copy, Debug, PartialEq, Eq)]
pub struct Hit {
    /// The key under which the item was put into the index.
    pub key: u64,
    /// The cosine distance to the query, in billionths.
    pub distance: u32,
}

/// A benchmark's link to a product.
#[derive(Clone, Copy, Debug, PartialEq, Eq)]
pub struct Association {
    pub product_id: i32,
    /// The cosine distance, in billionths.
    pub distance: u32,
}

/// What the nearest category means for a product.
#[derive(Clone, Copy, Debug, PartialEq, Eq)]
pub enum Assignment {
    /// The product belongs to this category.
    Assigned(i32),
    /// The nearest category is not similar enough.
    BelowThreshold,
    /// The nearest category's key is no identity.
    InvalidId,
    /// There is no category to compare with.
    NoCandidate,
}

/// The similarity that goes with a distance, in billionths; below zero for
/// a distance above one.
pub open spec fn similarity(distance: u32) -> int {
    DISTANCE_SCALE - distance
}

/// Whether an item at this distance is similar enough.
pub open spec fn near_enough(distance: u32) -> bool {
    similarity(distance) >= SIMILARITY_THRESHOLD
}

/// Whether a key is an identity: not above the largest identity.
pub open spec fn is_identity(key: u64) -> bool {
    key <= i32::MAX
}

/// Whether a hit is recorded: it is near enough and its key is an identity.
pub open spec fn recorded(hit: Hit) -> bool {
    near_enough(hit.distance) && is_identity(hit.key)
}

/// The link that records a hit.
pub open spec fn link_of(hit: Hit) -> Association {
    Association { product_id: hit.key as i32, distance: hit.distance }
}

/// The links that the first `k` hits give, in the order of the hits.
pub open spec fn links_upto(hits: Seq<Hit>, k: int) -> Seq<Association>
    decreases k,
{
    if k <= 0 {
        Seq::empty()
    } else if recorded(hits[k - 1]) {
        links_upto(hits, k - 1).push(link_of(hits[k - 1]))
    } else {
        links_upto(hits, k - 1)
    }
}

/// The number of hits that count: at most `TOP_K`.
pub open spec fn counted(hits: Seq<Hit>) -> int {
    if hits.len() <= TOP_K {
        hits.len() as int
    } else {
        TOP_K as int
    }
}

/// The links that are written for the hits of one search: of the first
/// `TOP_K` hits, those that are recorded.
pub open spec fn associations_of(hits: Seq<Hit>) -> Seq<Association> {
    links_upto(hits, counted(hits))
}

/// What the nearest category means for a product.
pub open spec fn assignment_of(hit: Option<Hit>) -> Assignment {
    match hit {
        None => Assignment::NoCandidate,
        Some(h) => if !near_enough(h.distance) {
            Assignment::BelowThreshold
        } else if !is_identity(h.key) {
            Assignment::InvalidId
        } else {
            Assignment::Assigned(h.key as i32)
        },
    }
}

/// Every link that is written is that of a recorded hit among the first
/// `k`, and there are at most `k` links.
pub proof fn lemma_links_upto(hits: Seq<Hit>, k: int)
    requires
        0 <= k <= hits.len(),
    ensures
        links_upto(hits, k).len() <= k,
        forall|a: int|
            0 <= a < links_upto(hits, k).len() ==> near_enough(
                (#[trigger] links_upto(hits, k)[a]).distance,
            ) && links_upto(hits, k)[a].product_id >= 0,
    decreases k,
{
    if k > 0 {
        lemma_links_upto(hits, k - 1);
    }
}

/// For the hits of one search at most `TOP_K` links are written, and each
/// has a similarity of at least the threshold.
pub proof fn lemma_association_cap(hits: Seq<Hit>)
    ensures
        associations_of(hits).len() <= TOP_K,
        forall|a: int|
            0 <= a < associations_of(hits).len() ==> DISTANCE_SCALE - (
            #[trigger] associations_of(hits)[a]).distance >= SIMILARITY_THRESHOLD,
{
    lemma_links_upto(hits, counted(hits));
}

/// Whether an item at this distance is similar enough.
pub fn is_near_enough(distance: u32) -> (r: bool)
    ensures
        r == near_enough(distance),
{
    distance <= DISTANCE_SCALE - SIMILARITY_THRESHOLD
}

/// Chooses the links that are written for the hits of one search.
pub fn select_associations(hits: &Vec<Hit>) -> (r: Vec<Association>)
    ensures
        r@ == associations_of(hits@),
        r@.len() <= TOP_K,
        forall|a: int|
            0 <= a < r@.len() ==> DISTANCE_SCALE - (#[trigger] r@[a]).distance
                >= SIMILARITY_THRESHOLD,
{
    let n: usize = if hits.len() <= TOP_K { hits.len() } else { TOP_K };
    let mut out: Vec<Association> = Vec::new();
    let mut k: usize = 0;
    while k < n
        invariant
            k <= n <= hits.len(),
            out@ == links_upto(hits@, k as int),
        decreases n - k,
    {
        let hit = hits[k];
        if is_near_enough(hit.distance) && hit.key <= 0x7fff_ffff {
            out.push(Association { product_id: hit.key as i32, distance: hit.distance });
        }
        k += 1;
    }
    proof {
        lemma_association_cap(hits@);
    }
    out
}

/// Decides what the nearest category means for a product.
pub fn assign_category(hit: Option<Hit>) -> (r: Assignment)
    ensures
        r == assignment_of(hit),
{
    match hit {
        None => Assignment::NoCandidate,
        Some(h) => {
            if !is_near_enough(h.distance) {
                Assignment::BelowThreshold
            } else if h.key > 0x7fff_ffff {
                Assignment::InvalidId
            } else {
                Assignment::Assigned(h.key as i32)
            }
        },
    }
}

/// Pairs the keys and the distances that a search gave, in order, as far
/// as both reach.
pub fn search_results(keys: &[u64], distances: &[u32]) -> (r: Vec<Hit>)
    ensures
        r@.len() == if keys@.len() <= distances@.len() {
            keys@.len()
        } else {
            distances@.len()
        },
        forall|i: int|
            0 <= i < r@.len() ==> #[trigger] r@[i] == (Hit {
                key: keys@[i],
                distance: distances@[i],
            }),
{
    let n: usize = if keys.len() <= distances.len() { keys.len() } else { distances.len() };
    let mut out: Vec<Hit> = Vec::new();
    let mut i: usize = 0;
    while i < n
        invariant
            i <= n,
            n <= keys@.len(),
            n <= distances@.len(),
            out.len() == i,
            forall|j: int|
                0 <= j < i ==> #[trigger] out@[j] == (Hit {
                    key: keys@[j],
                    distance: distances@[j],
                }),
        decreases n - i,
    {
        out.push(Hit { key: keys[i], distance: distances[i] });
        i += 1;
    }
    out
}

} // verus!

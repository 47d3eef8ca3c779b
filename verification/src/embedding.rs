//! Embeddings: the text that is embedded, the stored form of a vector, and
//! the decision whether a vector is loaded or has to be generated.
//!
//! A vector is held as the 32-bit words of its components, as they stand
//! in the IEEE 754 single format. The components' values are never read
//! here.

use vstd::prelude::*;
use crate::matching::Hit;
use crate::number::{Decimal, DecimalView};

verus! {

/// The word that four bytes write, least significant byte first.
pub open spec fn word_of(b0: u8, b1: u8, b2: u8, b3: u8) -> u32 {
    (b0 as int + b1 as int * 0x100 + b2 as int * 0x1_0000 + b3 as int * 0x100_0000) as u32
}

/// The four bytes that write a word, least significant byte first.
pub open spec fn bytes_of(w: u32) -> Seq<u8> {
    seq![
        (w as int % 0x100) as u8,
        (w as int / 0x100 % 0x100) as u8,
        (w as int / 0x1_0000 % 0x100) as u8,
        (w as int / 0x100_0000) as u8,
    ]
}

/// The vector that a stored blob holds: none where its length is no
/// multiple of four, otherwise one word for each four bytes, in order.
pub open spec fn words_of(blob: Seq<u8>) -> Option<Seq<u32>> {
    if blob.len() % 4 != 0 {
        None
    } else {
        Some(
            Seq::new(
                blob.len() / 4,
                |i: int| word_of(blob[4 * i], blob[4 * i + 1], blob[4 * i + 2], blob[4 * i + 3]),
            ),
        )
    }
}

/// The blob that stores a vector: four bytes for each word, in order.
pub open spec fn blob_of(words: Seq<u32>) -> Seq<u8> {
    Seq::new(words.len() * 4, |i: int| bytes_of(words[i / 4])[i % 4])
}

/// A word is the word of its own bytes.
pub proof fn lemma_word_of_bytes(w: u32)
    ensures
        word_of(bytes_of(w)[0], bytes_of(w)[1], bytes_of(w)[2], bytes_of(w)[3]) == w,
{
}

/// Four bytes are the bytes of their own word.
pub proof fn lemma_bytes_of_word(b0: u8, b1: u8, b2: u8, b3: u8)
    ensures
        bytes_of(word_of(b0, b1, b2, b3)) == seq![b0, b1, b2, b3],
{
    let w = b0 as int + b1 as int * 0x100 + b2 as int * 0x1_0000 + b3 as int * 0x100_0000;
    let r1 = b0 as int;
    let r2 = b0 as int + b1 as int * 0x100;
    let r3 = b0 as int + b1 as int * 0x100 + b2 as int * 0x1_0000;
    let q1 = b1 as int + b2 as int * 0x100 + b3 as int * 0x1_0000;
    let q2 = b2 as int + b3 as int * 0x100;
    let q3 = b3 as int;
    assert(w == 0x100 * q1 + r1 && 0 <= r1 < 0x100);
    assert(w / 0x100 == q1 && w % 0x100 == r1);
    assert(q1 == 0x100 * q2 + b1 as int);
    assert(q1 % 0x100 == b1 as int);
    assert(w == 0x1_0000 * q2 + r2 && 0 <= r2 < 0x1_0000);
    assert(w / 0x1_0000 == q2);
    assert(q2 == 0x100 * q3 + b2 as int);
    assert(q2 % 0x100 == b2 as int);
    assert(w == 0x100_0000 * q3 + r3 && 0 <= r3 < 0x100_0000);
    assert(w / 0x100_0000 == q3);
    assert(word_of(b0, b1, b2, b3) as int == w);
    assert(bytes_of(word_of(b0, b1, b2, b3)) =~= seq![b0, b1, b2, b3]);
}

/// A vector that was stored is loaded unchanged.
pub proof fn lemma_store_then_load(words: Seq<u32>)
    ensures
        words_of(blob_of(words)) == Some(words),
{
    let blob = blob_of(words);
    assert(blob.len() % 4 == 0);
    assert forall|i: int| 0 <= i < words.len() implies word_of(
        blob[4 * i],
        blob[4 * i + 1],
        blob[4 * i + 2],
        blob[4 * i + 3],
    ) == words[i] by {
        lemma_word_of_bytes(words[i]);
        assert((4 * i) / 4 == i && (4 * i) % 4 == 0);
        assert((4 * i + 1) / 4 == i && (4 * i + 1) % 4 == 1);
        assert((4 * i + 2) / 4 == i && (4 * i + 2) % 4 == 2);
        assert((4 * i + 3) / 4 == i && (4 * i + 3) % 4 == 3);
    }
    assert(words_of(blob)->0 =~= words);
}

/// A blob that holds a vector is what storing that vector gives.
pub proof fn lemma_load_then_store(blob: Seq<u8>)
    requires
        blob.len() % 4 == 0,
    ensures
        blob_of(words_of(blob)->0) == blob,
{
    let words = words_of(blob)->0;
    assert forall|i: int| 0 <= i < blob.len() implies blob_of(words)[i] == blob[i] by {
        let k = i / 4;
        lemma_bytes_of_word(blob[4 * k], blob[4 * k + 1], blob[4 * k + 2], blob[4 * k + 3]);
        assert(i == 4 * k + i % 4);
    }
    assert(blob_of(words) =~= blob);
}

/// Reads the vector that a stored blob holds.
pub fn embedding_from_blob(blob: &[u8]) -> (r: Option<Vec<u32>>)
    ensures
        match r {
            Some(words) => words_of(blob@) == Some(words@),
            None => words_of(blob@) is None,
        },
{
    if blob.len() % 4 != 0 {
        return None;
    }
    let n = blob.len() / 4;
    let mut words: Vec<u32> = Vec::new();
    let mut i: usize = 0;
    while i < n
        invariant
            i <= n,
            n == blob.len() / 4,
            blob.len() % 4 == 0,
            words.len() == i,
            forall|k: int|
                0 <= k < i ==> words@[k] == word_of(
                    blob@[4 * k],
                    blob@[4 * k + 1],
                    blob@[4 * k + 2],
                    blob@[4 * k + 3],
                ),
        decreases n - i,
    {
        let b0: u32 = blob[4 * i] as u32;
        let b1: u32 = blob[4 * i + 1] as u32;
        let b2: u32 = blob[4 * i + 2] as u32;
        let b3: u32 = blob[4 * i + 3] as u32;
        words.push(b0 + b1 * 0x100 + b2 * 0x1_0000 + b3 * 0x100_0000);
        i += 1;
    }
    assert(words@ =~= words_of(blob@)->0);
    Some(words)
}

/// Writes the blob that stores a vector.
pub fn blob_from_embedding(words: &[u32]) -> (r: Vec<u8>)
    requires
        words@.len() * 4 <= usize::MAX,
    ensures
        r@ == blob_of(words@),
{
    let mut blob: Vec<u8> = Vec::new();
    let mut i: usize = 0;
    while i < words.len()
        invariant
            i <= words.len(),
            blob.len() == 4 * i,
            words@.len() * 4 <= usize::MAX,
            forall|k: int| 0 <= k < 4 * i ==> blob@[k] == bytes_of(words@[k / 4])[k % 4],
        decreases words.len() - i,
    {
        let w: u32 = words[i];
        blob.push((w % 0x100) as u8);
        blob.push((w / 0x100 % 0x100) as u8);
        blob.push((w / 0x1_0000 % 0x100) as u8);
        blob.push((w / 0x100_0000) as u8);
        i += 1;
    }
    assert(blob@ =~= blob_of(words@));
    blob
}

/// Where the vector of a record comes from.
pub enum EmbeddingSource {
    /// The record had a stored vector: this one. Nothing was generated.
    Loaded(Vec<u32>),
    /// The record has no stored vector: one is generated from the prompt,
    /// normalized and stored.
    Generate(String),
    /// The record's blob holds no vector.
    Corrupt,
}

/// Decides where the vector of a record comes from. A stored blob is
/// loaded as it is, whatever the prompt; only a record without a blob has a
/// vector generated from its prompt.
pub fn load_or_generate_embedding(existing_blob: Option<&[u8]>, prompt: String) -> (r:
    EmbeddingSource)
    ensures
        match existing_blob {
            Some(blob) => match words_of(blob@) {
                Some(words) => r matches EmbeddingSource::Loaded(w) && w@ == words,
                None => r is Corrupt,
            },
            None => r matches EmbeddingSource::Generate(p) && p@ == prompt@,
        },
{
    match existing_blob {
        Some(blob) => match embedding_from_blob(blob) {
            Some(words) => EmbeddingSource::Loaded(words),
            None => EmbeddingSource::Corrupt,
        },
        None => EmbeddingSource::Generate(prompt),
    }
}

/// The text that is embedded for a product or a benchmark: its fields,
/// each on a line of its own, in the order name, sku, category, units,
/// price, amount and description.
pub open spec fn prompt_of(
    name: Seq<char>,
    sku: Seq<char>,
    category: Seq<char>,
    units: Seq<char>,
    price: DecimalView,
    amount: DecimalView,
    description: Seq<char>,
) -> Seq<char> {
    "Name: "@ + name + "\nSKU: "@ + sku + "\nCategory: "@ + category + "\nUnits: "@ + units
        + "\nPrice: "@ + price.text() + "\nAmount: "@ + amount.text() + "\nDescription: "@
        + description
}

/// Writes the text that is embedded for a product or a benchmark.
pub fn product_embedding_prompt(
    name: &str,
    sku: &str,
    category: &str,
    units: &str,
    price: &Decimal,
    amount: &Decimal,
    description: &str,
) -> (r: String)
    ensures
        r@ == prompt_of(name@, sku@, category@, units@, price@, amount@, description@),
{
    let mut out = String::from_str("Name: ");
    out.append(name);
    out.append("\nSKU: ");
    out.append(sku);
    out.append("\nCategory: ");
    out.append(category);
    out.append("\nUnits: ");
    out.append(units);
    out.append("\nPrice: ");
    let price_text = price.to_text();
    out.append(price_text.as_str());
    out.append("\nAmount: ");
    let amount_text = amount.to_text();
    out.append(amount_text.as_str());
    out.append("\nDescription: ");
    out.append(description);
    out
}

/// What a search for the nearest neighbours has to do.
pub enum SearchPlan {
    /// Nothing: there is no item to find, or none is asked for. The result
    /// is this, and it is empty.
    Found(Vec<Hit>),
    /// Build an index of `dimensions` dimensions with room for `capacity`
    /// items, add every item, and ask for the `neighbours` nearest.
    Query { dimensions: usize, capacity: usize, neighbours: usize },
}

/// Plans the search for the `k` items nearest to `query`. With no items or
/// with `k` zero there is nothing to search and the result is empty;
/// otherwise the index has the query's dimension and room for all items.
pub fn search_top_k(query: &[u32], items: &[(i32, Vec<u32>)], k: usize) -> (r: SearchPlan)
    ensures
        items@.len() == 0 || k == 0 ==> (r matches SearchPlan::Found(hits) && hits@.len() == 0),
        items@.len() > 0 && k > 0 ==> r == (SearchPlan::Query {
            dimensions: query@.len() as usize,
            capacity: items@.len() as usize,
            neighbours: k,
        }),
{
    if items.len() == 0 || k == 0 {
        SearchPlan::Found(Vec::new())
    } else {
        SearchPlan::Query { dimensions: query.len(), capacity: items.len(), neighbours: k }
    }
}

} // verus!

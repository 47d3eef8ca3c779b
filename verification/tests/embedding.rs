use pushkind_crawlers::embedding::{
    blob_from_embedding, embedding_from_blob, load_or_generate_embedding,
    product_embedding_prompt, search_top_k, EmbeddingSource, SearchPlan,
};
use pushkind_crawlers::matching::search_results;
use pushkind_crawlers::number::Decimal;
use usearch::{Index, IndexOptions, MetricKind, ScalarKind};

fn decimal(value: f64) -> Decimal {
    Decimal::parse(&format!("{}", value)).expect("a finite number")
}

fn words(vector: &[f32]) -> Vec<u32> {
    vector.iter().map(|x| x.to_bits()).collect()
}

fn billionths(distance: f32) -> u32 {
    (distance.max(0.0) as f64 * 1_000_000_000.0).round() as u32
}

#[test]
fn prompt_produces_expected_string() {
    let result = product_embedding_prompt(
        "Sample Name",
        "SKU123",
        "Category",
        "units",
        &decimal(9.99),
        &decimal(2.0),
        "Description",
    );

    let expected = "Name: Sample Name\nSKU: SKU123\nCategory: Category\nUnits: units\nPrice: 9.99\nAmount: 2\nDescription: Description";
    assert_eq!(result, expected);
}

#[test]
fn prompt_writes_missing_fields_as_empty_lines() {
    let result = product_embedding_prompt("N", "S", "", "", &decimal(0.5), &decimal(0.0), "");
    assert_eq!(
        result,
        "Name: N\nSKU: S\nCategory: \nUnits: \nPrice: 0.5\nAmount: 0\nDescription: "
    );
}

#[test]
fn search_top_k_returns_empty_for_empty_items() {
    let query = words(&[1.0_f32, 0.0, 0.0]);
    let items: Vec<(i32, Vec<u32>)> = Vec::new();

    let result = match search_top_k(&query, &items, 1) {
        SearchPlan::Found(hits) => hits,
        SearchPlan::Query { .. } => panic!("search should succeed"),
    };

    assert!(result.is_empty());
}

#[test]
fn search_top_k_returns_empty_for_zero_neighbours() {
    let query = words(&[1.0_f32, 0.0, 0.0]);
    let items = vec![(10, words(&[0.0_f32, 1.0, 0.0]))];
    match search_top_k(&query, &items, 0) {
        SearchPlan::Found(hits) => assert!(hits.is_empty()),
        SearchPlan::Query { .. } => panic!("nothing is asked for"),
    }
}

#[test]
fn search_top_k_returns_best_neighbor_first() {
    let query = vec![1.0_f32, 0.0, 0.0];
    let items = vec![
        (10, vec![0.0_f32, 1.0, 0.0]),
        (20, vec![1.0_f32, 0.0, 0.0]),
        (30, vec![0.5_f32, 0.5, 0.0]),
    ];
    let item_words: Vec<(i32, Vec<u32>)> =
        items.iter().map(|(id, v)| (*id, words(v))).collect();

    let plan = search_top_k(&words(&query), &item_words, 1);
    let (dimensions, capacity, neighbours) = match plan {
        SearchPlan::Query { dimensions, capacity, neighbours } => {
            (dimensions, capacity, neighbours)
        }
        SearchPlan::Found(_) => panic!("search should succeed"),
    };
    assert_eq!((dimensions, capacity, neighbours), (3, 3, 1));

    let index = Index::new(&IndexOptions {
        dimensions,
        metric: MetricKind::Cos,
        quantization: ScalarKind::F32,
        ..Default::default()
    })
    .expect("search should succeed");
    index.reserve(capacity).expect("search should succeed");
    for (id, embedding) in &items {
        index.add(*id as u64, embedding).expect("search should succeed");
    }
    let neighbors = index.search(&query, neighbours).expect("search should succeed");
    let distances: Vec<u32> = neighbors.distances.iter().map(|d| billionths(*d)).collect();
    let result = search_results(&neighbors.keys, &distances);

    assert_eq!(result.len(), 1);
    assert_eq!(result[0].key, 20);
}

#[test]
fn search_results_pair_keys_and_distances_as_far_as_both_reach() {
    let hits = search_results(&[7, 8, 9], &[100, 200]);
    assert_eq!(hits.len(), 2);
    assert_eq!((hits[0].key, hits[0].distance), (7, 100));
    assert_eq!((hits[1].key, hits[1].distance), (8, 200));
    assert!(search_results(&[], &[1]).is_empty());
}

#[test]
fn blob_is_read_least_significant_byte_first() {
    let blob = [0x00, 0x00, 0x80, 0x3f, 0x01, 0x02, 0x03, 0x04];
    let vector = embedding_from_blob(&blob).expect("a whole number of words");
    assert_eq!(vector, vec![0x3f80_0000, 0x0403_0201]);
    assert_eq!(f32::from_bits(vector[0]), 1.0);
}

#[test]
fn blob_of_a_broken_length_holds_no_vector() {
    assert!(embedding_from_blob(&[1, 2, 3]).is_none());
    assert!(embedding_from_blob(&[1, 2, 3, 4, 5]).is_none());
    assert_eq!(embedding_from_blob(&[]), Some(vec![]));
}

#[test]
fn blob_round_trips() {
    let vector = words(&[0.25_f32, -1.5, 3.0e-5, f32::MAX]);
    let blob = blob_from_embedding(&vector);
    assert_eq!(blob.len(), 16);
    assert_eq!(&blob[0..4], &0.25_f32.to_le_bytes());
    assert_eq!(embedding_from_blob(&blob), Some(vector.clone()));
    assert_eq!(blob_from_embedding(&embedding_from_blob(&blob).unwrap()), blob);
}

#[test]
fn stored_embedding_is_loaded_and_nothing_is_generated() {
    let blob = blob_from_embedding(&words(&[0.6_f32, 0.8]));
    for prompt in ["one prompt", "another prompt"] {
        match load_or_generate_embedding(Some(&blob), prompt.to_string()) {
            EmbeddingSource::Loaded(vector) => assert_eq!(vector, words(&[0.6_f32, 0.8])),
            _ => panic!("a stored vector is loaded"),
        }
    }
}

#[test]
fn missing_embedding_is_generated_from_the_prompt() {
    match load_or_generate_embedding(None, "Green Tea".to_string()) {
        EmbeddingSource::Generate(prompt) => assert_eq!(prompt, "Green Tea"),
        _ => panic!("a missing vector is generated"),
    }
}

#[test]
fn broken_blob_is_reported() {
    assert!(matches!(
        load_or_generate_embedding(Some(&[1, 2, 3]), "p".to_string()),
        EmbeddingSource::Corrupt
    ));
}

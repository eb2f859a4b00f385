use lancedb::error::Error;
use lancedb::rerank::{
    dedup_by_row_id, first_occurrence_mask, merge_results_all_scores, require_row_ids, rrf_ranks, ResultIds,
    ReturnScore,
};

fn names(v: &[&str]) -> Vec<String> {
    v.iter().map(|s| s.to_string()).collect()
}

fn select<T: Copy>(items: &[T], mask: &[bool]) -> Vec<T> {
    items.iter().zip(mask).filter(|(_, &m)| m).map(|(&x, _)| x).collect()
}

fn score(rank: Option<usize>, k: f32) -> Option<f32> {
    rank.map(|i| 1.0 / (i as f32 + k))
}

#[test]
fn reciprocal_rank_fusion_ranks() {
    // test_rrf_reranker: vector ids [1, 4, 2, 5, 3], fts ids [4, 5, 3], k = 1
    let vector = vec![1u64, 4, 2, 5, 3];
    let fts = vec![4u64, 5, 3];
    let concatenated: Vec<u64> = vector.iter().chain(fts.iter()).copied().collect();
    let combined = select(&concatenated, &first_occurrence_mask(&concatenated));
    assert_eq!(combined, vec![1, 4, 2, 5, 3]);
    let ranks = rrf_ranks(&vector, &fts, &combined);
    assert_eq!(ranks, vec![(Some(0), None), (Some(1), Some(0)), (Some(2), None), (Some(3), Some(1)), (Some(4), Some(2))]);
    let mut scored: Vec<(u64, f32)> = combined
        .iter()
        .zip(&ranks)
        .map(|(&id, &(v, f))| {
            let s = match (score(v, 1.0), score(f, 1.0)) {
                (Some(a), Some(b)) => a + b,
                (Some(a), None) | (None, Some(a)) => a,
                (None, None) => unreachable!(),
            };
            (id, s)
        })
        .collect();
    scored.sort_by(|a, b| b.1.partial_cmp(&a.1).unwrap());
    assert_eq!(scored.iter().map(|s| s.0).collect::<Vec<_>>(), vec![4, 1, 5, 3, 2]);
    assert_eq!(
        scored.iter().map(|s| s.1).collect::<Vec<_>>(),
        vec![1.5, 1.0, 0.75, 1.0 / 5.0 + 1.0 / 3.0, 1.0 / 3.0]
    );
}

#[test]
fn deduplicates_vector_results() {
    let batch = ResultIds { column_names: names(&["name", "_rowid", "_distance"]), num_rows: 3, row_ids: Some(vec![1, 2, 1]) };
    let mask = dedup_by_row_id(&batch).unwrap();
    assert_eq!(mask, vec![true, true, false]);
    let ids = select(&[1u64, 2, 1], &mask);
    assert_eq!(ids.len(), 2, "expected 2 unique rows, got {:?}", ids);
    assert!(ids.contains(&1));
    assert!(ids.contains(&2));
}

#[test]
fn dedup_needs_row_ids_unless_empty() {
    let empty = ResultIds { column_names: names(&["name"]), num_rows: 0, row_ids: None };
    assert_eq!(dedup_by_row_id(&empty), Ok(vec![]));
    let no_ids = ResultIds { column_names: names(&["name"]), num_rows: 2, row_ids: None };
    assert_eq!(
        dedup_by_row_id(&no_ids),
        Err(Error::InvalidInput { message: "column '_rowid' missing from batch for deduplication".to_string() })
    );
}

#[test]
fn all_scores_merge_keeps_both_raw_scores() {
    // id=1: vector-only, id=2: both, id=3: FTS-only
    let vector = ResultIds { column_names: names(&["name", "_rowid", "_distance"]), num_rows: 2, row_ids: Some(vec![1, 2]) };
    let fts = ResultIds { column_names: names(&["name", "_rowid", "_score"]), num_rows: 2, row_ids: Some(vec![2, 3]) };
    let fts_scores = vec![Some(0.9f32.to_bits()), Some(0.8f32.to_bits())];
    let plan = merge_results_all_scores(&vector, &fts, Some(&fts_scores)).unwrap();
    // id=1 gets a null _score, id=2 the FTS score
    assert_eq!(plan.vector_scores, Some(vec![None, Some(0.9f32.to_bits())]));
    // only id=3 is taken from the FTS rows, with a null _distance
    assert_eq!(plan.fts_only, vec![false, true]);
    assert!(plan.fts_null_distance);
    // FTS columns [name, _rowid, _score, _distance] lined up with
    // vector columns [name, _rowid, _distance, _score]
    assert_eq!(plan.fts_column_order, Some(vec![0, 1, 3, 2]));
}

#[test]
fn all_scores_merge_without_fts_only_rows() {
    let vector = ResultIds { column_names: names(&["_rowid", "_score"]), num_rows: 2, row_ids: Some(vec![1, 2]) };
    let fts = ResultIds { column_names: names(&["_rowid", "_score"]), num_rows: 1, row_ids: Some(vec![2]) };
    let plan = merge_results_all_scores(&vector, &fts, None).unwrap();
    assert_eq!(plan.vector_scores, None);
    assert_eq!(plan.fts_only, vec![false]);
    assert_eq!(plan.fts_column_order, None);
}

#[test]
fn all_scores_merge_errors() {
    let vector = ResultIds { column_names: names(&["name", "_rowid"]), num_rows: 1, row_ids: Some(vec![1]) };
    let no_ids = ResultIds { column_names: names(&["name"]), num_rows: 1, row_ids: None };
    assert_eq!(
        merge_results_all_scores(&vector, &no_ids, None).err(),
        Some(Error::InvalidInput { message: "column '_rowid' missing from fts_results".to_string() })
    );
    let fts = ResultIds { column_names: names(&["_rowid", "_score"]), num_rows: 1, row_ids: Some(vec![5]) };
    assert_eq!(
        merge_results_all_scores(&no_ids, &fts, None).err(),
        Some(Error::InvalidInput { message: "column '_rowid' missing from vector_results".to_string() })
    );
    // the vector column `name` is absent from the FTS-only rows
    assert_eq!(
        merge_results_all_scores(&vector, &fts, None).err(),
        Some(Error::InvalidInput { message: "column 'name' missing from fts_only after padding".to_string() })
    );
    assert_eq!(ReturnScore::default(), ReturnScore::Relevance);
}

#[test]
fn ranking_needs_row_ids() {
    let batch = ResultIds { column_names: names(&["name", "_score"]), num_rows: 0, row_ids: None };
    assert_eq!(
        require_row_ids(&batch, "fts_results"),
        Err(Error::InvalidInput {
            message: "expected column _rowid not found in fts_results. found columns [\"name\", \"_score\"]".to_string()
        })
    );
    let batch = ResultIds { column_names: names(&["_rowid"]), num_rows: 1, row_ids: Some(vec![3]) };
    assert_eq!(require_row_ids(&batch, "vector_results"), Ok(()));
}

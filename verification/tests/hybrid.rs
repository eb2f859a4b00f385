use lancedb::error::Error;
use lancedb::hybrid::{
    empty_fts_schema, empty_vec_schema, locate_score_column, normalize_inverts, query_schemas,
    rank_descending, restore_original_scores, with_field_name_replaced, ColumnType,
    OriginalScores, ResultSide, SchemaPlan,
};

fn names(v: &[&str]) -> Vec<String> {
    v.iter().map(|s| s.to_string()).collect()
}

fn bits(v: &[Option<f32>]) -> Vec<Option<u32>> {
    v.iter().map(|x| x.map(f32::to_bits)).collect()
}

#[test]
fn rank_reports_a_missing_column() {
    let cols = names(&["name", "score"]);
    match locate_score_column(&cols, "bad_col", 0) {
        Err(Error::InvalidInput { message }) => assert_eq!(
            "expected column bad_col not found in rank. found columns [\"name\", \"score\"]",
            message
        ),
        other => panic!("expected invalid input error, received {:?}", other),
    }
    assert_eq!(locate_score_column(&cols, "score", 0), Ok(None));
    assert_eq!(locate_score_column(&cols, "score", 5), Ok(Some(1)));
    assert_eq!(locate_score_column(&names(&["a", "s", "s"]), "s", 1), Ok(Some(1)));
}

#[test]
fn rank_and_normalize_defaults() {
    assert!(!rank_descending(None));
    assert!(!rank_descending(Some(true)));
    assert!(rank_descending(Some(false)));
    assert!(!normalize_inverts(None));
    assert!(normalize_inverts(Some(true)));
    assert!(!normalize_inverts(Some(false)));
}

#[test]
fn renames_only_the_first_matching_field() {
    let cols = names(&["a", "_distance", "_distance"]);
    assert_eq!(with_field_name_replaced(&cols, "_distance", "_score"), names(&["a", "_score", "_distance"]));
    assert_eq!(with_field_name_replaced(&cols, "zzz", "_score"), cols);
    let back = with_field_name_replaced(&with_field_name_replaced(&names(&["x", "y"]), "y", "z"), "z", "y");
    assert_eq!(back, names(&["x", "y"]));
}

#[test]
fn schemas_of_a_hybrid_query() {
    let fts = names(&["name", "_score", "_rowid"]);
    let vec = names(&["name", "_distance", "_rowid"]);
    match query_schemas(Some(&fts), Some(&vec)) {
        (SchemaPlan::FromResults { side: ResultSide::Fts, names: f }, SchemaPlan::FromResults { side: ResultSide::Vector, names: v }) => {
            assert_eq!(f, fts);
            assert_eq!(v, vec);
        }
        other => panic!("{:?}", other),
    }
    match query_schemas(None, Some(&vec)) {
        (SchemaPlan::FromResults { side: ResultSide::Vector, names: f }, SchemaPlan::FromResults { side: ResultSide::Vector, names: v }) => {
            assert_eq!(f, names(&["name", "_score", "_rowid"]));
            assert_eq!(v, vec);
        }
        other => panic!("{:?}", other),
    }
    match query_schemas(Some(&fts), None) {
        (SchemaPlan::FromResults { side: ResultSide::Fts, names: f }, SchemaPlan::FromResults { side: ResultSide::Fts, names: v }) => {
            assert_eq!(f, fts);
            assert_eq!(v, names(&["name", "_distance", "_rowid"]));
        }
        other => panic!("{:?}", other),
    }
    match query_schemas(None, None) {
        (SchemaPlan::Fields(f), SchemaPlan::Fields(v)) => {
            assert_eq!(f.len(), 2);
            assert_eq!((f[0].name.as_str(), f[0].data_type, f[0].nullable), ("_score", ColumnType::Float32, false));
            assert_eq!((f[1].name.as_str(), f[1].data_type, f[1].nullable), ("_rowid", ColumnType::UInt64, false));
            assert_eq!((v[0].name.as_str(), v[0].data_type), ("_distance", ColumnType::Float32));
            assert_eq!((v[1].name.as_str(), v[1].data_type), ("_rowid", ColumnType::UInt64));
        }
        other => panic!("{:?}", other),
    }
    assert_eq!(empty_fts_schema()[0].name, "_score");
    assert_eq!(empty_vec_schema()[0].name, "_distance");
}

#[test]
fn saved_scores_are_restored_by_row_id() {
    let ids = vec![10u64, 11, 12];
    let raw = bits(&[Some(0.5), None, Some(2.0)]);
    assert!(OriginalScores::save(0, Some(&vec![]), Some(&vec![])).is_none());
    assert!(OriginalScores::save(3, None, Some(&raw)).is_none());
    assert!(OriginalScores::save(3, Some(&ids), None).is_none());
    let saved = OriginalScores::save(3, Some(&ids), Some(&raw)).unwrap();
    assert_eq!(saved.map.len(), 3);

    // reordered, one row dropped, one row the saved batch did not have
    let result_ids = vec![12u64, 99, 10];
    let current = bits(&[Some(1.0), Some(0.25), None]);
    let restored = restore_original_scores(Some(&result_ids), Some(&current), &saved).unwrap().unwrap();
    assert_eq!(restored, bits(&[Some(2.0), Some(0.25), Some(0.5)]));

    assert_eq!(restore_original_scores(Some(&result_ids), None, &saved), Ok(None));
    assert_eq!(restore_original_scores(None, None, &saved), Ok(None));
    assert_eq!(
        restore_original_scores(None, Some(&current), &saved),
        Err(Error::Runtime { message: "cannot restore scores: _rowid column missing from results".to_string() })
    );
}

#[test]
fn later_rows_of_an_id_win_when_saving() {
    let saved = OriginalScores::save(2, Some(&vec![7, 7]), Some(&bits(&[Some(1.0), Some(3.0)]))).unwrap();
    assert_eq!(saved.map.get(&7), Some(&Some(3.0f32.to_bits())));
}

#[test]
fn restoring_into_the_saved_rows_gives_back_the_saved_scores() {
    let ids = vec![3u64, 1, 2];
    let raw = bits(&[Some(0.1), Some(7.5), None]);
    let saved = OriginalScores::save(3, Some(&ids), Some(&raw)).unwrap();
    let normalized = bits(&[Some(0.0), Some(1.0), Some(0.5)]);
    let restored = restore_original_scores(Some(&ids), Some(&normalized), &saved).unwrap().unwrap();
    assert_eq!(restored, raw);
}

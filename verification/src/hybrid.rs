//! Hybrid-search result handling: where the score column is, the schemas of
//! combined results, and the raw scores kept aside during normalization.
//!
//! Scores are carried as the bit patterns of their `f32` values
//! (`f32::to_bits`), so that they are moved without being computed on.
use std::collections::HashMap;
use vstd::prelude::*;
use vstd::string::*;
use crate::error::Error;
use crate::names::{
    copy_names, first_position, find_name, missing_column_message, missing_column_text, string_views,
    DIST_COL, ROW_ID, SCORE_COL,
};

verus! {

broadcast use vstd::std_specs::hash::group_hash_axioms;

/// `r` is what `rank` and `normalize_scores` do with their score column:
/// the error for a missing column, nothing for an empty batch, or the
/// position of the column to rewrite.
pub open spec fn is_score_column_outcome(r: Result<Option<usize>, Error>, names: Seq<Seq<char>>, column: Seq<char>, num_rows: nat) -> bool {
    match first_position(names, column) {
        None => r matches Err(Error::InvalidInput { message }) && message@ == missing_column_text(
            column,
            "rank"@,
            names,
        ),
        Some(p) => r == if num_rows == 0 {
            Ok::<Option<usize>, Error>(None)
        } else {
            Ok::<Option<usize>, Error>(Some(p as usize))
        },
    }
}

/// Locates the score column that `rank` and `normalize_scores` rewrite: the
/// first column called `column`. An empty batch is returned as it is
/// (`Ok(None)`); a missing column is an invalid input.
pub fn locate_score_column(names: &Vec<String>, column: &str, num_rows: usize) -> (r: Result<Option<usize>, Error>)
    ensures
        is_score_column_outcome(r, string_views(names@), column@, num_rows as nat),
{
    let wanted = String::from_str(column);
    match find_name(names, &wanted) {
        None => Err(Error::InvalidInput { message: missing_column_message(column, "rank", names) }),
        Some(p) => if num_rows == 0 {
            Ok(None)
        } else {
            Ok(Some(p))
        },
    }
}

/// Whether `rank` ranks in descending order: it ranks ascending unless
/// `ascending` is `Some(false)`.
pub fn rank_descending(ascending: Option<bool>) -> (d: bool)
    ensures
        d == (ascending == Some(false)),
{
    match ascending {
        Some(a) => !a,
        None => false,
    }
}

/// Whether `normalize_scores` inverts the normalized scores: only for
/// `Some(true)`.
pub fn normalize_inverts(invert: Option<bool>) -> (i: bool)
    ensures
        i == (invert == Some(true)),
{
    match invert {
        Some(i) => i,
        None => false,
    }
}

/// `names` with the first name equal to `target` replaced by `replacement`.
pub open spec fn replace_first(names: Seq<Seq<char>>, target: Seq<char>, replacement: Seq<char>) -> Seq<Seq<char>> {
    match first_position(names, target) {
        Some(p) => names.update(p as int, replacement),
        None => names,
    }
}

/// The field names of a schema with the first field called `target` renamed
/// to `replacement` (every other field is kept as it is).
pub fn with_field_name_replaced(names: &Vec<String>, target: &str, replacement: &str) -> (r: Vec<String>)
    ensures
        string_views(r@) == replace_first(string_views(names@), target@, replacement@),
{
    let wanted = String::from_str(target);
    let found = find_name(names, &wanted);
    let mut out: Vec<String> = Vec::new();
    let mut i: usize = 0;
    while i < names.len()
        invariant
            i <= names@.len(),
            out@.len() == i,
            found == (match first_position(string_views(names@), target@) {
                Some(p) => Some(p as usize),
                None => None::<usize>,
            }),
            forall|j: int| 0 <= j < i ==> out@[j]@ == replace_first(string_views(names@), target@, replacement@)[j],
        decreases names@.len() - i,
    {
        proof {
            crate::names::lemma_first_position(string_views(names@), target@);
        }
        if found == Some(i) {
            out.push(String::from_str(replacement));
        } else {
            out.push(names[i].clone());
        }
        i = i + 1;
    }
    proof {
        crate::names::lemma_first_position(string_views(names@), target@);
        assert(string_views(out@) =~= replace_first(string_views(names@), target@, replacement@));
    }
    out
}

/// Renaming a field and renaming it back restores the schema, where the new
/// name was not in use.
pub proof fn lemma_rename_round_trip(names: Seq<Seq<char>>, target: Seq<char>, replacement: Seq<char>)
    requires
        names.contains(target),
        !names.contains(replacement),
    ensures
        replace_first(replace_first(names, target, replacement), replacement, target) == names,
{
    crate::names::lemma_first_position(names, target);
    let p = first_position(names, target)->0 as int;
    let renamed = names.update(p, replacement);
    assert(!renamed.take(p).contains(replacement)) by {
        if renamed.take(p).contains(replacement) {
            let k = choose|k: int| 0 <= k < p && renamed.take(p)[k] == replacement;
            assert(names[k] == replacement);
        }
    }
    crate::names::lemma_first_position_at(renamed, replacement, p);
    assert(renamed.update(p, target) =~= names);
}

/// Element type of a column that the library creates.
#[derive(Debug, Clone, Copy, PartialEq, Eq, Structural)]
pub enum ColumnType {
    Float32,
    UInt64,
}

/// A field that the library creates.
#[derive(Debug)]
pub struct FieldSpec {
    pub name: String,
    pub data_type: ColumnType,
    pub nullable: bool,
}

/// `f` is a non-nullable field called `name` of type `t`.
pub open spec fn is_field(f: FieldSpec, name: Seq<char>, t: ColumnType) -> bool {
    f.name@ == name && f.data_type == t && !f.nullable
}

/// The fields of full-text-search results when there are none:
/// `_score: Float32`, `_rowid: UInt64`, both non-nullable.
pub open spec fn is_empty_fts_fields(fields: Seq<FieldSpec>) -> bool {
    &&& fields.len() == 2
    &&& is_field(fields[0], SCORE_COL@, ColumnType::Float32)
    &&& is_field(fields[1], ROW_ID@, ColumnType::UInt64)
}

/// The fields of vector-search results when there are none:
/// `_distance: Float32`, `_rowid: UInt64`, both non-nullable.
pub open spec fn is_empty_vec_fields(fields: Seq<FieldSpec>) -> bool {
    &&& fields.len() == 2
    &&& is_field(fields[0], DIST_COL@, ColumnType::Float32)
    &&& is_field(fields[1], ROW_ID@, ColumnType::UInt64)
}

/// The schema of full-text-search results when there are none:
/// `_score: Float32`, `_rowid: UInt64`, both non-nullable.
pub fn empty_fts_schema() -> (fields: Vec<FieldSpec>)
    ensures
        is_empty_fts_fields(fields@),
{
    let mut fields: Vec<FieldSpec> = Vec::new();
    fields.push(FieldSpec { name: String::from_str(SCORE_COL), data_type: ColumnType::Float32, nullable: false });
    fields.push(FieldSpec { name: String::from_str(ROW_ID), data_type: ColumnType::UInt64, nullable: false });
    fields
}

/// The schema of vector-search results when there are none:
/// `_distance: Float32`, `_rowid: UInt64`, both non-nullable.
pub fn empty_vec_schema() -> (fields: Vec<FieldSpec>)
    ensures
        is_empty_vec_fields(fields@),
{
    let mut fields: Vec<FieldSpec> = Vec::new();
    fields.push(FieldSpec { name: String::from_str(DIST_COL), data_type: ColumnType::Float32, nullable: false });
    fields.push(FieldSpec { name: String::from_str(ROW_ID), data_type: ColumnType::UInt64, nullable: false });
    fields
}

/// The two result lists of a hybrid search.
#[derive(Debug, Clone, Copy, PartialEq, Eq, Structural)]
pub enum ResultSide {
    Fts,
    Vector,
}

/// How to build one of the schemas of a hybrid query.
#[derive(Debug)]
pub enum SchemaPlan {
    /// The schema of the first batch of `side`, its field names replaced by
    /// `names` (position for position).
    FromResults { side: ResultSide, names: Vec<String> },
    /// A schema of exactly these fields.
    Fields(Vec<FieldSpec>),
}

/// `plan` takes the schema of `side`'s first batch, with field names
/// `names`.
pub open spec fn plan_from(plan: SchemaPlan, side: ResultSide, names: Seq<Seq<char>>) -> bool {
    plan matches SchemaPlan::FromResults { side: s, names: n } && s == side && string_views(n@) == names
}

/// The fields that `plan` builds, where it builds fields of its own.
pub open spec fn plan_fields(plan: SchemaPlan) -> Option<Seq<FieldSpec>> {
    match plan {
        SchemaPlan::Fields(f) => Some(f@),
        _ => None,
    }
}

/// The schemas used when combining full-text and vector search results
/// (given the field names of the first batch of each, where there is one).
///
/// Where both lists have a batch, each keeps its own schema. Where only one
/// has, the other's schema is built from it with its score column replaced:
/// the full-text schema is the vector one with the first `_distance` field
/// renamed to `_score`, and the vector schema is the full-text one with the
/// first `_score` field renamed to `_distance`. Where neither has, the empty
/// schemas are used.
pub fn query_schemas(fts_first: Option<&Vec<String>>, vec_first: Option<&Vec<String>>) -> (r: (SchemaPlan, SchemaPlan))
    ensures
        match (fts_first, vec_first) {
            (Some(f), Some(v)) => plan_from(r.0, ResultSide::Fts, string_views(f@))
                && plan_from(r.1, ResultSide::Vector, string_views(v@)),
            (None, Some(v)) => plan_from(r.0, ResultSide::Vector, replace_first(string_views(v@), DIST_COL@, SCORE_COL@))
                && plan_from(r.1, ResultSide::Vector, string_views(v@)),
            (Some(f), None) => plan_from(r.0, ResultSide::Fts, string_views(f@))
                && plan_from(r.1, ResultSide::Fts, replace_first(string_views(f@), SCORE_COL@, DIST_COL@)),
            (None, None) => {
                &&& plan_fields(r.0) is Some
                &&& is_empty_fts_fields(plan_fields(r.0)->0)
                &&& plan_fields(r.1) is Some
                &&& is_empty_vec_fields(plan_fields(r.1)->0)
            },
        },
{
    match (fts_first, vec_first) {
        (Some(f), Some(v)) => (
            SchemaPlan::FromResults { side: ResultSide::Fts, names: copy_names(f) },
            SchemaPlan::FromResults { side: ResultSide::Vector, names: copy_names(v) },
        ),
        (None, Some(v)) => (
            SchemaPlan::FromResults { side: ResultSide::Vector, names: with_field_name_replaced(v, DIST_COL, SCORE_COL) },
            SchemaPlan::FromResults { side: ResultSide::Vector, names: copy_names(v) },
        ),
        (Some(f), None) => (
            SchemaPlan::FromResults { side: ResultSide::Fts, names: copy_names(f) },
            SchemaPlan::FromResults { side: ResultSide::Fts, names: with_field_name_replaced(f, SCORE_COL, DIST_COL) },
        ),
        (None, None) => (SchemaPlan::Fields(empty_fts_schema()), SchemaPlan::Fields(empty_vec_schema())),
    }
}


/// Bit pattern of an `f32` score (`f32::to_bits`); `None` is a null score.
pub type ScoreBits = Option<u32>;

/// The score of each id, where a later row replaces an earlier row with the
/// same id.
pub open spec fn scores_by_id(ids: Seq<u64>, scores: Seq<ScoreBits>) -> Map<u64, ScoreBits>
    decreases ids.len(),
{
    if ids.len() == 0 {
        Map::empty()
    } else {
        scores_by_id(ids.drop_last(), scores).insert(ids.last(), scores[ids.len() - 1])
    }
}

/// Row `j` is the last row of `ids` that carries its id.
pub open spec fn is_last_occurrence(ids: Seq<u64>, j: int) -> bool {
    0 <= j < ids.len() && forall|k: int| j < k < ids.len() ==> ids[k] != ids[j]
}

/// Saving by id keeps exactly the ids of the rows, each with the score of
/// the last row that carries it.
pub proof fn lemma_scores_by_id_last(ids: Seq<u64>, scores: Seq<ScoreBits>)
    ensures
        forall|x: u64| scores_by_id(ids, scores).contains_key(x) <==> ids.contains(x),
        forall|j: int| #[trigger] is_last_occurrence(ids, j) ==> scores_by_id(ids, scores)[ids[j]] == scores[j],
    decreases ids.len(),
{
    if ids.len() > 0 {
        let prev = ids.drop_last();
        let n = ids.len() - 1;
        lemma_scores_by_id_last(prev, scores);
        assert forall|x: u64| scores_by_id(ids, scores).contains_key(x) <==> ids.contains(x) by {
            if prev.contains(x) {
                let k = choose|k: int| 0 <= k < prev.len() && prev[k] == x;
                assert(ids[k] == x);
            }
            if ids.contains(x) && x != ids[n] {
                let k = choose|k: int| 0 <= k < ids.len() && ids[k] == x;
                assert(prev[k] == x);
            }
        }
        assert forall|j: int| #[trigger] is_last_occurrence(ids, j) implies scores_by_id(ids, scores)[ids[j]] == scores[j] by {
            if j < n {
                assert(ids[n] != ids[j]);
                assert(prev[j] == ids[j]);
                assert forall|k: int| j < k < prev.len() implies prev[k] != prev[j] by {
                    assert(prev[k] == ids[k]);
                }
                assert(is_last_occurrence(prev, j));
            }
        }
    }
}

/// Builds the map from row id to score of a batch (the last row of an id wins).
pub fn map_scores_by_id(ids: &Vec<u64>, scores: &Vec<ScoreBits>) -> (m: HashMap<u64, ScoreBits>)
    requires
        scores@.len() == ids@.len(),
    ensures
        m@ == scores_by_id(ids@, scores@),
        forall|x: u64| m@.contains_key(x) <==> ids@.contains(x),
        forall|j: int| #[trigger] is_last_occurrence(ids@, j) ==> m@[ids@[j]] == scores@[j],
{
    let mut m: HashMap<u64, ScoreBits> = HashMap::new();
    let mut i: usize = 0;
    while i < ids.len()
        invariant
            i <= ids@.len(),
            scores@.len() == ids@.len(),
            m@ == scores_by_id(ids@.take(i as int), scores@),
        decreases ids@.len() - i,
    {
        proof {
            assert(ids@.take(i as int + 1).drop_last() == ids@.take(i as int));
        }
        m.insert(ids[i], scores[i]);
        i = i + 1;
    }
    proof {
        assert(ids@.take(ids@.len() as int) == ids@);
        lemma_scores_by_id_last(ids@, scores@);
    }
    m
}

/// The raw (pre-normalization) scores of a batch, keyed by row id.
///
/// Before normalization the raw `_distance` / `_score` column is saved
/// together with the row ids; after reranking [`restore_original_scores`]
/// puts the raw values back, matching on row ids (the reranker may have
/// reordered or dropped rows).
pub struct OriginalScores {
    /// row id to raw score (`None` where the row had a null score)
    pub map: HashMap<u64, ScoreBits>,
}

impl OriginalScores {
    /// Saves the score column of a batch of `num_rows` rows, given its row
    /// ids and its scores (each `None` where the batch lacks the column).
    ///
    /// Returns `None` when the batch has no rows or lacks either column.
    pub fn save(num_rows: usize, row_ids: Option<&Vec<u64>>, scores: Option<&Vec<ScoreBits>>) -> (r: Option<Self>)
        requires
            row_ids matches Some(ids) ==> ids@.len() == num_rows,
            scores matches Some(s) ==> s@.len() == num_rows,
        ensures
            r is Some <==> (num_rows > 0 && row_ids is Some && scores is Some),
            r matches Some(saved) ==> saved.map@ == scores_by_id(row_ids->0@, scores->0@),
    {
        if num_rows == 0 {
            return None;
        }
        let ids = match row_ids {
            Some(ids) => ids,
            None => return None,
        };
        let values = match scores {
            Some(values) => values,
            None => return None,
        };
        Some(OriginalScores { map: map_scores_by_id(ids, values) })
    }
}

/// The score column after restoring: the saved score of each row whose id
/// was saved, the current score of every other row.
pub open spec fn restored_scores(ids: Seq<u64>, current: Seq<ScoreBits>, original: Map<u64, ScoreBits>) -> Seq<ScoreBits> {
    Seq::new(
        ids.len(),
        |i: int|
            if original.contains_key(ids[i]) {
                original[ids[i]]
            } else {
                current[i]
            },
    )
}

/// The message for results without a row-id column.
pub open spec fn missing_row_id_for_restore() -> Seq<char> {
    "cannot restore scores: "@ + ROW_ID@ + " column missing from results"@
}

/// Replaces a score column of a batch by the raw scores saved in `original`,
/// matching rows by row id, given the batch's row ids and the current
/// values of the score column (each `None` where the batch lacks it).
///
/// Without the score column there is nothing to restore (`Ok(None)`);
/// without the row-id column it is a runtime error. Rows whose id was not
/// saved keep their current value.
pub fn restore_original_scores(row_ids: Option<&Vec<u64>>, current: Option<&Vec<ScoreBits>>, original: &OriginalScores) -> (r: Result<Option<Vec<ScoreBits>>, Error>)
    requires
        row_ids matches Some(ids) ==> (current matches Some(cur) ==> cur@.len() == ids@.len()),
    ensures
        current is None ==> r == Ok::<Option<Vec<ScoreBits>>, Error>(None),
        current is Some && row_ids is None ==> (r matches Err(Error::Runtime { message })
            && message@ == missing_row_id_for_restore()),
        current is Some && row_ids is Some ==> (r matches Ok(Some(v))
            && v@ == restored_scores(row_ids->0@, current->0@, original.map@)),
        r matches Ok(Some(v)) ==> v@.len() == row_ids->0@.len()
            && forall|i: int| 0 <= i < v@.len() ==> {
                &&& original.map@.contains_key(row_ids->0@[i]) ==> #[trigger] v@[i] == original.map@[row_ids->0@[i]]
                &&& !original.map@.contains_key(row_ids->0@[i]) ==> v@[i] == current->0@[i]
            },
{
    let cur = match current {
        Some(cur) => cur,
        None => return Ok(None),
    };
    let ids = match row_ids {
        Some(ids) => ids,
        None => {
            let message = String::from_str("cannot restore scores: ").concat(ROW_ID).concat(" column missing from results");
            return Err(Error::Runtime { message });
        },
    };
    let mut out: Vec<ScoreBits> = Vec::new();
    let mut i: usize = 0;
    while i < ids.len()
        invariant
            i <= ids@.len(),
            cur@.len() == ids@.len(),
            out@.len() == i,
            forall|j: int| 0 <= j < i ==> out@[j] == restored_scores(ids@, cur@, original.map@)[j],
        decreases ids@.len() - i,
    {
        let value = match original.map.get(&ids[i]) {
            Some(v) => *v,
            None => cur[i],
        };
        out.push(value);
        i = i + 1;
    }
    proof {
        assert(out@ =~= restored_scores(ids@, cur@, original.map@));
    }
    Ok(Some(out))
}

proof fn lemma_scores_by_id(ids: Seq<u64>, scores: Seq<ScoreBits>)
    requires
        ids.no_duplicates(),
    ensures
        forall|x: u64| scores_by_id(ids, scores).contains_key(x) <==> ids.contains(x),
        forall|i: int| 0 <= i < ids.len() ==> #[trigger] scores_by_id(ids, scores)[ids[i]] == scores[i],
    decreases ids.len(),
{
    if ids.len() > 0 {
        let prev = ids.drop_last();
        assert forall|a: int, b: int| 0 <= a < prev.len() && 0 <= b < prev.len() && a != b implies prev[a] != prev[b] by {
            assert(prev[a] == ids[a] && prev[b] == ids[b]);
        }
        lemma_scores_by_id(prev, scores);
        assert forall|x: u64| scores_by_id(ids, scores).contains_key(x) <==> ids.contains(x) by {
            if prev.contains(x) {
                let k = choose|k: int| 0 <= k < prev.len() && prev[k] == x;
                assert(ids[k] == x);
            }
            if ids.contains(x) && x != ids.last() {
                let k = choose|k: int| 0 <= k < ids.len() && ids[k] == x;
                assert(prev[k] == x);
            }
            assert(ids[ids.len() - 1] == ids.last());
        }
        assert forall|i: int| 0 <= i < ids.len() implies #[trigger] scores_by_id(ids, scores)[ids[i]] == scores[i] by {
            let last = ids.len() - 1;
            if i < last {
                assert(prev[i] == ids[i]);
                assert(ids[i] != ids[last]);
                assert(scores_by_id(prev, scores)[prev[i]] == scores[i]);
            }
        }
    }
}

/// Restoring scores saved from the same rows puts every saved score back:
/// where the row ids are distinct, restoring into any current column yields
/// exactly the saved column.
pub proof fn lemma_restore_after_save(ids: Seq<u64>, saved: Seq<ScoreBits>, current: Seq<ScoreBits>)
    requires
        ids.no_duplicates(),
        saved.len() == ids.len(),
        current.len() == ids.len(),
    ensures
        restored_scores(ids, current, scores_by_id(ids, saved)) == saved,
{
    lemma_scores_by_id(ids, saved);
    assert forall|i: int| 0 <= i < ids.len() implies restored_scores(ids, current, scores_by_id(ids, saved))[i] == saved[i] by {
        assert(ids.contains(ids[i]));
    }
    assert(restored_scores(ids, current, scores_by_id(ids, saved)) =~= saved);
}

/// The rows that `selection` picks, by position, from `items`.
pub open spec fn pick<T>(items: Seq<T>, selection: Seq<int>) -> Seq<T> {
    Seq::new(selection.len(), |k: int| items[selection[k]])
}

/// Restoring puts the saved scores back after the rows were reordered or
/// dropped: where the saved row ids are distinct, restoring into any
/// selection of the saved rows (in any order, any current column) yields the
/// saved scores of exactly those rows.
pub proof fn lemma_restore_after_reordering(ids: Seq<u64>, saved: Seq<ScoreBits>, selection: Seq<int>, current: Seq<ScoreBits>)
    requires
        ids.no_duplicates(),
        saved.len() == ids.len(),
        current.len() == selection.len(),
        forall|k: int| 0 <= k < selection.len() ==> 0 <= #[trigger] selection[k] < ids.len(),
    ensures
        restored_scores(pick(ids, selection), current, scores_by_id(ids, saved)) == pick(saved, selection),
{
    lemma_scores_by_id(ids, saved);
    let picked = pick(ids, selection);
    assert forall|k: int| 0 <= k < selection.len() implies restored_scores(picked, current, scores_by_id(ids, saved))[k]
        == pick(saved, selection)[k] by {
        let j = selection[k];
        assert(picked[k] == ids[j]);
        assert(ids.contains(ids[j]));
        assert(scores_by_id(ids, saved)[ids[j]] == saved[j]);
    }
    assert(restored_scores(picked, current, scores_by_id(ids, saved)) =~= pick(saved, selection));
}

/// Restoring changes only the rows whose id was saved: each such row gets
/// its saved score, and every other row keeps its current score at the same
/// position. In particular, restoring from scores that hold none of the ids
/// gives back the current column unchanged.
pub proof fn lemma_restore_keeps_unsaved_rows(ids: Seq<u64>, current: Seq<ScoreBits>, original: Map<u64, ScoreBits>)
    requires
        current.len() == ids.len(),
    ensures
        restored_scores(ids, current, original).len() == ids.len(),
        forall|i: int| 0 <= i < ids.len() && !original.contains_key(ids[i]) ==> #[trigger] restored_scores(
            ids,
            current,
            original,
        )[i] == current[i],
        forall|i: int| 0 <= i < ids.len() && original.contains_key(ids[i]) ==> #[trigger] restored_scores(
            ids,
            current,
            original,
        )[i] == original[ids[i]],
        (forall|i: int| 0 <= i < ids.len() ==> !original.contains_key(#[trigger] ids[i])) ==> restored_scores(
            ids,
            current,
            original,
        ) == current,
{
    if forall|i: int| 0 <= i < ids.len() ==> !original.contains_key(#[trigger] ids[i]) {
        assert(restored_scores(ids, current, original) =~= current);
    }
}

} // verus!

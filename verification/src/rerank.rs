//! Reranking of hybrid-search results: deduplication by row id, the ranks
//! that reciprocal rank fusion scores, and the merge of vector and
//! full-text results that keeps every score column.
use std::collections::{HashMap, HashSet};
use vstd::prelude::*;
use vstd::string::*;
use crate::error::Error;
use crate::hybrid::{
    is_last_occurrence, lemma_scores_by_id_last, map_scores_by_id, restored_scores, scores_by_id,
    ScoreBits,
};
use crate::names::{
    copy_names, find_name, missing_column_message, missing_column_text, first_position, has_name, lemma_first_position, string_views, DIST_COL, ROW_ID,
    SCORE_COL,
};

verus! {

broadcast use vstd::std_specs::hash::group_hash_axioms;

/// Whether row `i` is the first row that carries its id.
pub open spec fn is_first_occurrence(ids: Seq<u64>, i: int) -> bool {
    !ids.take(i).contains(ids[i])
}

/// The ids that remain when only the first row of each id is kept, in order.
pub open spec fn dedup_ids(ids: Seq<u64>) -> Seq<u64>
    decreases ids.len(),
{
    if ids.len() == 0 {
        Seq::empty()
    } else {
        let prev = dedup_ids(ids.drop_last());
        if ids.drop_last().contains(ids.last()) {
            prev
        } else {
            prev.push(ids.last())
        }
    }
}

/// The items whose position the mask selects, in order.
pub open spec fn select<T>(items: Seq<T>, mask: Seq<bool>) -> Seq<T>
    decreases items.len(),
{
    if items.len() == 0 {
        Seq::empty()
    } else {
        let prev = select(items.drop_last(), mask);
        if mask[items.len() - 1] {
            prev.push(items.last())
        } else {
            prev
        }
    }
}

/// The mask that keeps the first row of each id and drops every later row
/// with an id already seen.
pub fn first_occurrence_mask(ids: &Vec<u64>) -> (mask: Vec<bool>)
    ensures
        mask@.len() == ids@.len(),
        forall|i: int| 0 <= i < ids@.len() ==> mask@[i] == is_first_occurrence(ids@, i),
{
    let mut seen: HashSet<u64> = HashSet::new();
    let mut mask: Vec<bool> = Vec::new();
    let mut i: usize = 0;
    while i < ids.len()
        invariant
            i <= ids@.len(),
            mask@.len() == i,
            forall|j: int| 0 <= j < i ==> mask@[j] == is_first_occurrence(ids@, j),
            forall|x: u64| seen@.contains(x) <==> ids@.take(i as int).contains(x),
        decreases ids@.len() - i,
    {
        let id = ids[i];
        let fresh = seen.insert(id);
        proof {
            let t0 = ids@.take(i as int);
            let t1 = ids@.take(i as int + 1);
            assert(t1 == t0.push(id));
            assert forall|x: u64| seen@.contains(x) <==> t1.contains(x) by {
                if x == id {
                    assert(t1[i as int] == id);
                } else if t0.contains(x) {
                    let k = choose|k: int| 0 <= k < t0.len() && t0[k] == x;
                    assert(t1[k] == x);
                } else if t1.contains(x) {
                    let k = choose|k: int| 0 <= k < t1.len() && t1[k] == x;
                    assert(t0[k] == x);
                }
            }
        }
        mask.push(fresh);
        i = i + 1;
    }
    mask
}

proof fn lemma_dedup_ids(ids: Seq<u64>)
    ensures
        dedup_ids(ids).no_duplicates(),
        forall|x: u64| dedup_ids(ids).contains(x) <==> ids.contains(x),
    decreases ids.len(),
{
    if ids.len() > 0 {
        let prev = ids.drop_last();
        lemma_dedup_ids(prev);
        let x = ids.last();
        assert forall|y: u64| dedup_ids(ids).contains(y) <==> ids.contains(y) by {
            if ids.contains(y) && y != x {
                let k = choose|k: int| 0 <= k < ids.len() && ids[k] == y;
                assert(prev[k] == y);
            }
            if prev.contains(y) {
                let k = choose|k: int| 0 <= k < prev.len() && prev[k] == y;
                assert(ids[k] == y);
            }
            if !prev.contains(x) {
                assert(dedup_ids(ids) == dedup_ids(prev).push(x));
                if dedup_ids(ids).contains(y) && y != x {
                    let k = choose|k: int| 0 <= k < dedup_ids(ids).len() && dedup_ids(ids)[k] == y;
                    assert(dedup_ids(prev)[k] == y);
                }
                if dedup_ids(prev).contains(y) {
                    let k = choose|k: int| 0 <= k < dedup_ids(prev).len() && dedup_ids(prev)[k] == y;
                    assert(dedup_ids(ids)[k] == y);
                }
                assert(dedup_ids(ids)[dedup_ids(prev).len() as int] == x);
            }
            assert(ids[ids.len() - 1] == x);
        }
    }
}

proof fn lemma_select_first_occurrences(ids: Seq<u64>, mask: Seq<bool>)
    requires
        mask.len() >= ids.len(),
        forall|i: int| 0 <= i < ids.len() ==> mask[i] == is_first_occurrence(ids, i),
    ensures
        select(ids, mask) == dedup_ids(ids),
    decreases ids.len(),
{
    if ids.len() > 0 {
        let prev = ids.drop_last();
        assert forall|i: int| 0 <= i < prev.len() implies mask[i] == is_first_occurrence(prev, i) by {
            assert(prev.take(i) == ids.take(i));
        }
        lemma_select_first_occurrences(prev, mask);
        assert(ids.take(ids.len() - 1) == prev);
    }
}

/// Keeping the first row of each id (the mask of `first_occurrence_mask`)
/// leaves every id of the input exactly once, in the order of first
/// appearance.
pub proof fn lemma_dedup_keeps_each_id_once(ids: Seq<u64>, mask: Seq<bool>)
    requires
        mask.len() == ids.len(),
        forall|i: int| 0 <= i < ids.len() ==> mask[i] == is_first_occurrence(ids, i),
    ensures
        select(ids, mask) == dedup_ids(ids),
        select(ids, mask).no_duplicates(),
        select(ids, mask).to_set() == ids.to_set(),
{
    lemma_select_first_occurrences(ids, mask);
    lemma_dedup_ids(ids);
    assert(select(ids, mask).to_set() =~= ids.to_set());
}

/// Which score columns a reranker returns.
#[derive(Debug, Clone, Copy, PartialEq, Eq, Structural)]
pub enum ReturnScore {
    /// Only the relevance score is added; the merge keeps the full-text
    /// search schema.
    Relevance,
    /// Every raw score column is kept next to the relevance score.
    All,
}

impl Default for ReturnScore {
    fn default() -> (r: Self)
        ensures
            r == ReturnScore::Relevance,
    {
        ReturnScore::Relevance
    }
}

/// What the reranker reads of a result batch: its column names, its number
/// of rows and its `_rowid` column, where it has one.
#[derive(Debug)]
pub struct ResultIds {
    pub column_names: Vec<String>,
    pub num_rows: usize,
    pub row_ids: Option<Vec<u64>>,
}

impl ResultIds {
    /// The batch has row ids exactly where it has a column called `_rowid`,
    /// with a value for every row.
    pub open spec fn wf(&self) -> bool {
        &&& self.row_ids matches Some(ids) ==> ids@.len() == self.num_rows
        &&& self.names().contains(ROW_ID@) <==> self.row_ids is Some
    }

    /// The column names of the batch.
    pub open spec fn names(&self) -> Seq<Seq<char>> {
        string_views(self.column_names@)
    }
}

/// The message for a batch without a row-id column that is to be
/// deduplicated.
pub open spec fn missing_row_id_for_dedup() -> Seq<char> {
    "column '"@ + ROW_ID@ + "' missing from batch for deduplication"@
}

/// The rows of `batch` that remain when only the first row of each row id is
/// kept (as a mask over its rows). An empty batch is kept as it is; a
/// non-empty batch without a row-id column is an invalid input.
pub fn dedup_by_row_id(batch: &ResultIds) -> (r: Result<Vec<bool>, Error>)
    requires
        batch.wf(),
    ensures
        batch.num_rows == 0 ==> (r matches Ok(mask) && mask@.len() == 0),
        batch.num_rows > 0 && batch.row_ids is None ==> (r matches Err(Error::InvalidInput { message })
            && message@ == missing_row_id_for_dedup()),
        batch.num_rows > 0 && batch.row_ids is Some ==> (r matches Ok(mask)
            && mask@.len() == batch.num_rows
            && forall|i: int| 0 <= i < mask@.len() ==> mask@[i] == is_first_occurrence(batch.row_ids->0@, i)),
{
    if batch.num_rows == 0 {
        return Ok(Vec::new());
    }
    match &batch.row_ids {
        None => {
            let message = String::from_str("column '").concat(ROW_ID).concat("' missing from batch for deduplication");
            Err(Error::InvalidInput { message })
        },
        Some(ids) => Ok(first_occurrence_mask(ids)),
    }
}

/// The map from each id of `ids` to the position of its first row.
fn first_positions(ids: &Vec<u64>) -> (m: HashMap<u64, usize>)
    ensures
        forall|x: u64| m@.contains_key(x) <==> ids@.contains(x),
        forall|x: u64| m@.contains_key(x) ==> first_position(ids@, x) == Some(m@[x] as nat),
{
    let mut m: HashMap<u64, usize> = HashMap::new();
    let mut i: usize = 0;
    while i < ids.len()
        invariant
            i <= ids@.len(),
            forall|x: u64| m@.contains_key(x) <==> ids@.take(i as int).contains(x),
            forall|x: u64| m@.contains_key(x) ==> first_position(ids@.take(i as int), x) == Some(m@[x] as nat),
        decreases ids@.len() - i,
    {
        let id = ids[i];
        let ghost t0 = ids@.take(i as int);
        let ghost t1 = ids@.take(i as int + 1);
        proof {
            assert(t1.drop_last() == t0);
            assert(t1.last() == id);
            assert forall|x: u64| t1.contains(x) <==> (t0.contains(x) || x == id) by {
                if t0.contains(x) {
                    let k = choose|k: int| 0 <= k < t0.len() && t0[k] == x;
                    assert(t1[k] == x);
                }
                if t1.contains(x) && x != id {
                    let k = choose|k: int| 0 <= k < t1.len() && t1[k] == x;
                    assert(t0[k] == x);
                }
                assert(t1[i as int] == id);
            }
            assert forall|x: u64| #[trigger] first_position(t1, x) == (match first_position(t0, x) {
                Some(p) => Some(p),
                None => if x == id { Some(i as nat) } else { None },
            }) by {}
            lemma_first_position(t0, id);
        }
        if !m.contains_key(&id) {
            m.insert(id, i);
        }
        i = i + 1;
    }
    proof {
        assert(ids@.take(ids@.len() as int) == ids@);
    }
    m
}

/// `p` as a position of the executable width.
pub open spec fn as_index(p: Option<nat>) -> Option<usize> {
    match p {
        Some(k) => Some(k as usize),
        None => None,
    }
}

/// `rank` is the rank of `id` in `ids`: present exactly when `id` occurs in
/// `ids`, and then the position of its first row.
pub open spec fn is_rank_in(rank: Option<usize>, ids: Seq<u64>, id: u64) -> bool {
    &&& rank is Some <==> ids.contains(id)
    &&& rank matches Some(p) ==> p < ids.len() && ids[p as int] == id && !ids.take(p as int).contains(id)
}

/// The rank of an id in a list (as `rrf_ranks` reports it) is present for
/// every id of the list, however far down the list it comes, and is then the
/// position of the id's first row.
pub proof fn lemma_rank_is_first_position(ids: Seq<u64>, id: u64)
    requires
        ids.len() <= usize::MAX,
    ensures
        is_rank_in(as_index(first_position(ids, id)), ids, id),
{
    lemma_first_position(ids, id);
}

/// The ranks, in the vector results and in the full-text results (0 for the
/// first row), of each row of the combined results: the position of the
/// first row with its id, or `None` where the id is absent from that list.
///
/// The reciprocal-rank-fusion relevance of a row is the sum, over the lists
/// in which it has a rank `r`, of `1 / (r + k)`.
pub fn rrf_ranks(vector_ids: &Vec<u64>, fts_ids: &Vec<u64>, row_ids: &Vec<u64>) -> (r: Vec<(Option<usize>, Option<usize>)>)
    ensures
        r@.len() == row_ids@.len(),
        forall|j: int| 0 <= j < row_ids@.len() ==> r@[j] == (
            as_index(first_position(vector_ids@, row_ids@[j])),
            as_index(first_position(fts_ids@, row_ids@[j])),
        ),
        forall|j: int| 0 <= j < row_ids@.len() ==> is_rank_in(#[trigger] r@[j].0, vector_ids@, row_ids@[j]),
        forall|j: int| 0 <= j < row_ids@.len() ==> is_rank_in(#[trigger] r@[j].1, fts_ids@, row_ids@[j]),
{
    let vector_pos = first_positions(vector_ids);
    let fts_pos = first_positions(fts_ids);
    let mut r: Vec<(Option<usize>, Option<usize>)> = Vec::new();
    let mut j: usize = 0;
    while j < row_ids.len()
        invariant
            j <= row_ids@.len(),
            r@.len() == j,
            forall|x: u64| vector_pos@.contains_key(x) <==> vector_ids@.contains(x),
            forall|x: u64| vector_pos@.contains_key(x) ==> first_position(vector_ids@, x) == Some(vector_pos@[x] as nat),
            forall|x: u64| fts_pos@.contains_key(x) <==> fts_ids@.contains(x),
            forall|x: u64| fts_pos@.contains_key(x) ==> first_position(fts_ids@, x) == Some(fts_pos@[x] as nat),
            forall|k: int| 0 <= k < j ==> r@[k] == (
                as_index(first_position(vector_ids@, row_ids@[k])),
                as_index(first_position(fts_ids@, row_ids@[k])),
            ),
        decreases row_ids@.len() - j,
    {
        let id = row_ids[j];
        proof {
            lemma_first_position(vector_ids@, id);
            lemma_first_position(fts_ids@, id);
        }
        let v = match vector_pos.get(&id) {
            Some(p) => Some(*p),
            None => None,
        };
        let f = match fts_pos.get(&id) {
            Some(p) => Some(*p),
            None => None,
        };
        r.push((v, f));
        j = j + 1;
    }
    let vector_len = vector_ids.len();
    let fts_len = fts_ids.len();
    proof {
        assert forall|j: int| 0 <= j < row_ids@.len() implies is_rank_in(#[trigger] r@[j].0, vector_ids@, row_ids@[j]) by {
            lemma_rank_is_first_position(vector_ids@, row_ids@[j]);
        }
        assert forall|j: int| 0 <= j < row_ids@.len() implies is_rank_in(#[trigger] r@[j].1, fts_ids@, row_ids@[j]) by {
            lemma_rank_is_first_position(fts_ids@, row_ids@[j]);
        }
    }
    r
}

/// The score of each full-text row id: its `_score` (where the column
/// exists; the last row of an id wins), or null.
pub open spec fn fts_score_map(fts_ids: Seq<u64>, fts_scores: Option<Seq<ScoreBits>>) -> Map<u64, ScoreBits> {
    match fts_scores {
        Some(s) => scores_by_id(fts_ids, s),
        None => scores_by_id(fts_ids, Seq::new(fts_ids.len(), |i: int| None::<u32>)),
    }
}

/// The `_score` column given to vector rows: the full-text score of each
/// row's id, null for ids absent from the full-text results.
pub open spec fn vector_score_column(vector_ids: Seq<u64>, scores: Map<u64, ScoreBits>) -> Seq<ScoreBits> {
    restored_scores(vector_ids, Seq::new(vector_ids.len(), |i: int| None::<u32>), scores)
}

/// The mask of the full-text rows whose id is absent from the vector rows.
pub open spec fn fts_only_rows(vector_ids: Seq<u64>, fts_ids: Seq<u64>) -> Seq<bool> {
    Seq::new(fts_ids.len(), |i: int| !vector_ids.contains(fts_ids[i]))
}

/// `names` with `column` appended where no column has that name.
pub open spec fn padded(names: Seq<Seq<char>>, column: Seq<char>) -> Seq<Seq<char>> {
    if names.contains(column) {
        names
    } else {
        names.push(column)
    }
}

/// For each name of `target`, the position of the first `source` column of
/// that name; or the first name of `target` that `source` lacks.
pub open spec fn column_order(target: Seq<Seq<char>>, source: Seq<Seq<char>>) -> Result<Seq<nat>, Seq<char>>
    decreases target.len(),
{
    if target.len() == 0 {
        Ok(Seq::empty())
    } else {
        match column_order(target.drop_last(), source) {
            Err(missing) => Err(missing),
            Ok(order) => match first_position(source, target.last()) {
                Some(p) => Ok(order.push(p)),
                None => Err(target.last()),
            },
        }
    }
}

/// Number of `true` entries of a mask.
pub open spec fn count_true(mask: Seq<bool>) -> nat
    decreases mask.len(),
{
    if mask.len() == 0 {
        0
    } else {
        count_true(mask.drop_last()) + if mask.last() { 1nat } else { 0nat }
    }
}

/// How to merge vector and full-text results while keeping every raw score
/// column.
#[derive(Debug)]
pub struct AllScoresMerge {
    /// The `_score` column appended to the vector rows, where they lack one.
    pub vector_scores: Option<Vec<ScoreBits>>,
    /// The full-text rows that are kept (those absent from the vector rows).
    pub fts_only: Vec<bool>,
    /// Whether a null `_distance` column is appended to the kept full-text rows.
    pub fts_null_distance: bool,
    /// `None` when no full-text row is kept: the result is the vector rows
    /// alone. Otherwise the kept full-text rows follow the vector rows, their
    /// columns taken in this order (so that they line up with the vector
    /// columns).
    pub fts_column_order: Option<Vec<usize>>,
}

/// The message for a vector column that the kept full-text rows lack.
pub open spec fn missing_after_padding(name: Seq<char>) -> Seq<char> {
    "column '"@ + name + "' missing from fts_only after padding"@
}

/// The message for full-text results without a row-id column.
pub open spec fn missing_row_id_in_fts() -> Seq<char> {
    "column '"@ + ROW_ID@ + "' missing from fts_results"@
}

/// The message for vector results without a row-id column.
pub open spec fn missing_row_id_in_vector() -> Seq<char> {
    "column '"@ + ROW_ID@ + "' missing from vector_results"@
}

/// `r` is the merge of `vector` and `fts` that keeps every raw score column.
pub open spec fn is_all_scores_merge(
    r: Result<AllScoresMerge, Error>,
    vector: ResultIds,
    fts: ResultIds,
    fts_scores: Option<Seq<ScoreBits>>,
) -> bool {
    let vec_has_score = vector.names().contains(SCORE_COL@);
    if fts.row_ids is None {
        r matches Err(Error::InvalidInput { message }) && message@ == missing_row_id_in_fts()
    } else if !vec_has_score && vector.row_ids is None {
        r matches Err(Error::InvalidInput { message }) && message@ == missing_row_id_in_vector()
    } else {
        let vector_ids = vector.row_ids->0@;
        let fts_ids = fts.row_ids->0@;
        let mask = fts_only_rows(vector_ids, fts_ids);
        let order = column_order(
            padded(vector.names(), SCORE_COL@),
            padded(fts.names(), DIST_COL@),
        );
        if count_true(mask) > 0 && order is Err {
            r matches Err(Error::InvalidInput { message }) && message@ == missing_after_padding(order->Err_0)
        } else {
            r matches Ok(plan) && {
                &&& (if vec_has_score {
                    plan.vector_scores is None
                } else {
                    plan.vector_scores matches Some(col) && col@ == vector_score_column(
                        vector_ids,
                        fts_score_map(fts_ids, fts_scores),
                    )
                })
                &&& plan.fts_only@ == mask
                &&& plan.fts_null_distance == !fts.names().contains(DIST_COL@)
                &&& (if count_true(mask) == 0 {
                    plan.fts_column_order is None
                } else {
                    plan.fts_column_order matches Some(o) && o@.map_values(|k: usize| k as nat) == order->Ok_0
                })
            }
        }
    }
}

/// The mask of the full-text rows whose id is absent from the vector rows.
fn fts_only_mask(vector_ids: &Vec<u64>, fts_ids: &Vec<u64>) -> (mask: Vec<bool>)
    ensures
        mask@ == fts_only_rows(vector_ids@, fts_ids@),
{
    let mut seen: HashSet<u64> = HashSet::new();
    let mut i: usize = 0;
    while i < vector_ids.len()
        invariant
            i <= vector_ids@.len(),
            forall|x: u64| seen@.contains(x) <==> vector_ids@.take(i as int).contains(x),
        decreases vector_ids@.len() - i,
    {
        let id = vector_ids[i];
        proof {
            let t0 = vector_ids@.take(i as int);
            let t1 = vector_ids@.take(i as int + 1);
            assert(t1 == t0.push(id));
            assert forall|x: u64| (seen@.contains(x) || x == id) <==> t1.contains(x) by {
                if x == id {
                    assert(t1[i as int] == id);
                } else if t0.contains(x) {
                    let k = choose|k: int| 0 <= k < t0.len() && t0[k] == x;
                    assert(t1[k] == x);
                } else if t1.contains(x) {
                    let k = choose|k: int| 0 <= k < t1.len() && t1[k] == x;
                    assert(t0[k] == x);
                }
            }
        }
        seen.insert(id);
        i = i + 1;
    }
    proof {
        assert(vector_ids@.take(vector_ids@.len() as int) == vector_ids@);
    }
    let mut mask: Vec<bool> = Vec::new();
    let mut j: usize = 0;
    while j < fts_ids.len()
        invariant
            j <= fts_ids@.len(),
            mask@.len() == j,
            forall|x: u64| seen@.contains(x) <==> vector_ids@.contains(x),
            forall|k: int| 0 <= k < j ==> mask@[k] == fts_only_rows(vector_ids@, fts_ids@)[k],
        decreases fts_ids@.len() - j,
    {
        mask.push(!seen.contains(&fts_ids[j]));
        j = j + 1;
    }
    proof {
        assert(mask@ =~= fts_only_rows(vector_ids@, fts_ids@));
    }
    mask
}

/// Whether a mask selects any row.
fn any_selected(mask: &Vec<bool>) -> (r: bool)
    ensures
        r == (count_true(mask@) > 0),
{
    let mut i: usize = 0;
    while i < mask.len()
        invariant
            i <= mask@.len(),
            count_true(mask@.take(i as int)) == 0,
        decreases mask@.len() - i,
    {
        proof {
            assert(mask@.take(i as int + 1).drop_last() == mask@.take(i as int));
        }
        if mask[i] {
            proof {
                lemma_count_true_prefix(mask@, i as int + 1);
            }
            return true;
        }
        i = i + 1;
    }
    proof {
        assert(mask@.take(mask@.len() as int) == mask@);
    }
    false
}

proof fn lemma_count_true_prefix(mask: Seq<bool>, k: int)
    requires
        0 <= k <= mask.len(),
    ensures
        count_true(mask) >= count_true(mask.take(k)),
    decreases mask.len(),
{
    if k == mask.len() {
        assert(mask.take(k) == mask);
    } else {
        assert(mask.drop_last().take(k) == mask.take(k));
        lemma_count_true_prefix(mask.drop_last(), k);
    }
}

/// `names` with `column` appended where no column has that name.
fn padded_names(names: &Vec<String>, column: &str) -> (r: Vec<String>)
    ensures
        string_views(r@) == padded(string_views(names@), column@),
{
    let wanted = String::from_str(column);
    let present = has_name(names, &wanted);
    let mut out = copy_names(names);
    if !present {
        let ghost before = out@;
        out.push(wanted);
        proof {
            assert(string_views(out@) =~= string_views(before).push(column@));
        }
    }
    out
}

/// For each name of `target`, the position of the first `source` column of
/// that name; or the first name of `target` that `source` lacks.
fn column_order_of(target: &Vec<String>, source: &Vec<String>) -> (r: Result<Vec<usize>, String>)
    ensures
        match column_order(string_views(target@), string_views(source@)) {
            Ok(order) => r matches Ok(o) && o@.map_values(|k: usize| k as nat) == order,
            Err(missing) => r matches Err(m) && m@ == missing,
        },
{
    let ghost t = string_views(target@);
    let ghost src = string_views(source@);
    let mut order: Vec<usize> = Vec::new();
    let mut i: usize = 0;
    proof {
        assert(t.take(0) == Seq::<Seq<char>>::empty());
        assert(order@.map_values(|k: usize| k as nat) =~= Seq::<nat>::empty());
    }
    while i < target.len()
        invariant
            i <= target@.len(),
            t == string_views(target@),
            src == string_views(source@),
            column_order(t.take(i as int), src) matches Ok(o) && order@.map_values(|k: usize| k as nat) == o,
        decreases target@.len() - i,
    {
        proof {
            assert(t.take(i as int + 1).drop_last() == t.take(i as int));
            assert(t.take(i as int + 1).last() == target@[i as int]@);
        }
        match find_name(source, &target[i]) {
            None => {
                proof {
                    lemma_column_order_err(t, src, i as int + 1);
                }
                return Err(target[i].clone());
            },
            Some(p) => {
                let ghost before = order@;
                let ghost prefix_order = column_order(t.take(i as int), src)->Ok_0;
                order.push(p);
                proof {
                    lemma_first_position(src, target@[i as int]@);
                    assert(first_position(src, target@[i as int]@) == Some(p as nat));
                    assert(column_order(t.take(i as int + 1), src) == Ok::<Seq<nat>, Seq<char>>(
                        prefix_order.push(p as nat),
                    ));
                    assert(order@.map_values(|k: usize| k as nat) =~= before.map_values(|k: usize| k as nat).push(p as nat));
                }
            },
        }
        i = i + 1;
    }
    proof {
        assert(t.take(target@.len() as int) == t);
    }
    Ok(order)
}

proof fn lemma_column_order_err(target: Seq<Seq<char>>, source: Seq<Seq<char>>, k: int)
    requires
        0 <= k <= target.len(),
        column_order(target.take(k), source) is Err,
    ensures
        column_order(target, source) == column_order(target.take(k), source),
    decreases target.len(),
{
    if k == target.len() {
        assert(target.take(k) == target);
    } else {
        assert(target.drop_last().take(k) == target.take(k));
        lemma_column_order_err(target.drop_last(), source, k);
    }
}

/// The `_score` column given to vector rows: the full-text score of each
/// row's id, null for ids absent from the full-text results.
fn vector_scores_from(vector_ids: &Vec<u64>, scores: &HashMap<u64, ScoreBits>) -> (col: Vec<ScoreBits>)
    ensures
        col@ == vector_score_column(vector_ids@, scores@),
        col@.len() == vector_ids@.len(),
        forall|i: int| 0 <= i < vector_ids@.len() && !scores@.contains_key(vector_ids@[i]) ==> #[trigger] col@[i] is None,
        forall|i: int| 0 <= i < vector_ids@.len() && scores@.contains_key(vector_ids@[i]) ==> #[trigger] col@[i]
            == scores@[vector_ids@[i]],
{
    let mut col: Vec<ScoreBits> = Vec::new();
    let mut i: usize = 0;
    while i < vector_ids.len()
        invariant
            i <= vector_ids@.len(),
            col@.len() == i,
            forall|k: int| 0 <= k < i ==> col@[k] == vector_score_column(vector_ids@, scores@)[k],
        decreases vector_ids@.len() - i,
    {
        let v = match scores.get(&vector_ids[i]) {
            Some(s) => *s,
            None => None,
        };
        col.push(v);
        i = i + 1;
    }
    proof {
        assert(col@ =~= vector_score_column(vector_ids@, scores@));
    }
    col
}

/// A score column of nulls, one per row.
fn null_scores(n: usize) -> (col: Vec<ScoreBits>)
    ensures
        col@ == Seq::new(n as nat, |i: int| None::<u32>),
{
    let mut col: Vec<ScoreBits> = Vec::new();
    let mut i: usize = 0;
    while i < n
        invariant
            i <= n,
            col@ == Seq::new(i as nat, |k: int| None::<u32>),
        decreases n - i,
    {
        col.push(None);
        i = i + 1;
        proof {
            assert(col@ =~= Seq::new(i as nat, |k: int| None::<u32>));
        }
    }
    col
}

/// Merges vector and full-text results keeping all score columns.
///
/// For rows in both result sets the vector `_distance` and the full-text
/// `_score` are both kept. For rows in only one set the missing score column
/// is null: vector-only rows get a null `_score`, full-text-only rows a null
/// `_distance`.
///
/// `fts_scores` is the full-text `_score` column, where there is one.
pub fn merge_results_all_scores(vector: &ResultIds, fts: &ResultIds, fts_scores: Option<&Vec<ScoreBits>>) -> (r: Result<AllScoresMerge, Error>)
    requires
        vector.wf(),
        fts.wf(),
        fts_scores matches Some(s) ==> s@.len() == fts.num_rows,
        fts.row_ids is Some && vector.names().contains(SCORE_COL@) ==> vector.row_ids is Some,
    ensures
        is_all_scores_merge(r, *vector, *fts, match fts_scores {
            Some(s) => Some(s@),
            None => None,
        }),
{
    let fts_ids = match &fts.row_ids {
        Some(ids) => ids,
        None => {
            let message = String::from_str("column '").concat(ROW_ID).concat("' missing from fts_results");
            return Err(Error::InvalidInput { message });
        },
    };
    let score_map = match fts_scores {
        Some(s) => map_scores_by_id(fts_ids, s),
        None => {
            let nulls = null_scores(fts_ids.len());
            map_scores_by_id(fts_ids, &nulls)
        },
    };
    let score_name = String::from_str(SCORE_COL);
    let vec_has_score = has_name(&vector.column_names, &score_name);
    let (vector_ids, vector_scores) = match &vector.row_ids {
        Some(ids) => {
            let added = if vec_has_score {
                None
            } else {
                Some(vector_scores_from(ids, &score_map))
            };
            (ids, added)
        },
        None => {
            let message = String::from_str("column '").concat(ROW_ID).concat("' missing from vector_results");
            return Err(Error::InvalidInput { message });
        },
    };
    let fts_only = fts_only_mask(vector_ids, fts_ids);
    let dist_name = String::from_str(DIST_COL);
    let fts_null_distance = !has_name(&fts.column_names, &dist_name);
    if !any_selected(&fts_only) {
        return Ok(AllScoresMerge { vector_scores, fts_only, fts_null_distance, fts_column_order: None });
    }
    let vec_names = padded_names(&vector.column_names, SCORE_COL);
    let fts_names = padded_names(&fts.column_names, DIST_COL);
    match column_order_of(&vec_names, &fts_names) {
        Ok(order) => Ok(AllScoresMerge { vector_scores, fts_only, fts_null_distance, fts_column_order: Some(order) }),
        Err(missing) => {
            let message = String::from_str("column '").concat(missing.as_str()).concat("' missing from fts_only after padding");
            Err(Error::InvalidInput { message })
        },
    }
}

/// The row ids of the merge that keeps every raw score column: the vector
/// rows, then the full-text rows whose id is absent from the vector rows.
pub open spec fn all_scores_merged_ids(vector_ids: Seq<u64>, fts_ids: Seq<u64>) -> Seq<u64> {
    vector_ids + select(fts_ids, fts_only_rows(vector_ids, fts_ids))
}

/// Position `i` of `items` is selected by `mask` and holds `x`.
pub open spec fn picks(items: Seq<u64>, mask: Seq<bool>, x: u64, i: int) -> bool {
    0 <= i < items.len() && mask[i] && items[i] == x
}

proof fn lemma_no_dup_prefix(items: Seq<u64>)
    requires
        items.len() > 0,
        items.no_duplicates(),
    ensures
        items.drop_last().no_duplicates(),
{
    let prev = items.drop_last();
    assert forall|a: int, b: int| 0 <= a < prev.len() && 0 <= b < prev.len() && a != b implies prev[a] != prev[b] by {
        assert(prev[a] == items[a] && prev[b] == items[b]);
    }
}

proof fn lemma_select_subset(items: Seq<u64>, mask: Seq<bool>)
    requires
        mask.len() >= items.len(),
    ensures
        forall|x: u64| select(items, mask).contains(x) <==> exists|i: int| #[trigger] picks(items, mask, x, i),
        items.no_duplicates() ==> select(items, mask).no_duplicates(),
    decreases items.len(),
{
    if items.len() > 0 {
        let prev = items.drop_last();
        let n = items.len() - 1;
        lemma_select_subset(prev, mask);
        let sp = select(prev, mask);
        let sel = select(items, mask);
        assert(mask[n] ==> sel == sp.push(items[n]));
        assert(!mask[n] ==> sel == sp);
        assert forall|x: u64| sel.contains(x) <==> exists|i: int| #[trigger] picks(items, mask, x, i) by {
            if sel.contains(x) {
                let k = choose|k: int| 0 <= k < sel.len() && sel[k] == x;
                if k < sp.len() {
                    assert(sp[k] == x);
                    assert(sp.contains(x));
                    let i = choose|i: int| #[trigger] picks(prev, mask, x, i);
                    assert(picks(items, mask, x, i));
                } else {
                    assert(picks(items, mask, x, n));
                }
            }
            if exists|i: int| #[trigger] picks(items, mask, x, i) {
                let i = choose|i: int| #[trigger] picks(items, mask, x, i);
                if i < n {
                    assert(picks(prev, mask, x, i));
                    assert(sp.contains(x));
                    let k = choose|k: int| 0 <= k < sp.len() && sp[k] == x;
                    assert(sel[k] == x);
                } else {
                    assert(sel[sp.len() as int] == x);
                }
            }
        }
        if items.no_duplicates() {
            lemma_no_dup_prefix(items);
            if mask[n] {
                if sp.contains(items[n]) {
                    let i = choose|i: int| #[trigger] picks(prev, mask, items[n], i);
                    assert(items[i] == items[n]);
                }
                assert forall|a: int, b: int| 0 <= a < sel.len() && 0 <= b < sel.len() && a != b implies sel[a] != sel[b] by {
                    if a == sp.len() {
                        assert(sp[b] == sel[b]);
                        assert(sp.contains(sel[b]));
                    } else if b == sp.len() {
                        assert(sp[a] == sel[a]);
                        assert(sp.contains(sel[a]));
                    } else {
                        assert(sp[a] == sel[a] && sp[b] == sel[b]);
                    }
                }
            }
        }
    }
}

/// The merge that keeps every raw score column holds each row id once:
/// where the vector ids and the full-text ids are each free of duplicates
/// (as after deduplication), the merged ids are free of duplicates and are
/// exactly the ids of either list.
pub proof fn lemma_all_scores_merge_rows(vector_ids: Seq<u64>, fts_ids: Seq<u64>)
    requires
        vector_ids.no_duplicates(),
        fts_ids.no_duplicates(),
    ensures
        all_scores_merged_ids(vector_ids, fts_ids).no_duplicates(),
        all_scores_merged_ids(vector_ids, fts_ids).to_set() == vector_ids.to_set().union(fts_ids.to_set()),
{
    let mask = fts_only_rows(vector_ids, fts_ids);
    let kept = select(fts_ids, mask);
    let merged = all_scores_merged_ids(vector_ids, fts_ids);
    lemma_select_subset(fts_ids, mask);
    assert forall|a: int, b: int| 0 <= a < merged.len() && 0 <= b < merged.len() && a != b implies merged[a] != merged[b] by {
        if a < vector_ids.len() && b >= vector_ids.len() {
            assert(merged[b] == kept[b - vector_ids.len()]);
            assert(kept.contains(merged[b]));
            let i = choose|i: int| #[trigger] picks(fts_ids, mask, merged[b], i);
            assert(merged[a] == vector_ids[a]);
            assert(vector_ids.contains(merged[a]));
        } else if b < vector_ids.len() && a >= vector_ids.len() {
            assert(merged[a] == kept[a - vector_ids.len()]);
            assert(kept.contains(merged[a]));
            let i = choose|i: int| #[trigger] picks(fts_ids, mask, merged[a], i);
            assert(merged[b] == vector_ids[b]);
            assert(vector_ids.contains(merged[b]));
        } else if a >= vector_ids.len() {
            assert(merged[a] == kept[a - vector_ids.len()]);
            assert(merged[b] == kept[b - vector_ids.len()]);
        }
    }
    assert forall|x: u64| merged.contains(x) <==> (vector_ids.contains(x) || fts_ids.contains(x)) by {
        if merged.contains(x) {
            let k = choose|k: int| 0 <= k < merged.len() && merged[k] == x;
            if k >= vector_ids.len() {
                assert(kept[k - vector_ids.len()] == x);
            }
        }
        if vector_ids.contains(x) {
            let k = choose|k: int| 0 <= k < vector_ids.len() && vector_ids[k] == x;
            assert(merged[k] == x);
        }
        if kept.contains(x) {
            let i = choose|i: int| #[trigger] picks(fts_ids, mask, x, i);
            assert(fts_ids[i] == x);
        }
        if fts_ids.contains(x) && !vector_ids.contains(x) {
            let i = choose|i: int| 0 <= i < fts_ids.len() && fts_ids[i] == x;
            assert(mask[i]);
            assert(picks(fts_ids, mask, x, i));
            assert(kept.contains(x));
            let k = choose|k: int| 0 <= k < kept.len() && kept[k] == x;
            assert(merged[vector_ids.len() + k] == x);
        }
    }
    assert(merged.to_set() =~= vector_ids.to_set().union(fts_ids.to_set()));
}

/// Before ranking, each result list must have a row-id column: a list
/// without one is an invalid input whose message names the list (`context`)
/// and the columns it has.
pub fn require_row_ids(batch: &ResultIds, context: &str) -> (r: Result<(), Error>)
    ensures
        batch.row_ids is Some ==> r is Ok,
        batch.row_ids is None ==> (r matches Err(Error::InvalidInput { message })
            && message@ == missing_column_text(ROW_ID@, context@, batch.names())),
{
    match &batch.row_ids {
        Some(_) => Ok(()),
        None => Err(Error::InvalidInput { message: missing_column_message(ROW_ID, context, &batch.column_names) }),
    }
}

/// Every row of a merge has a rank, so that its relevance is defined: a row
/// whose id comes from the vector or the full-text results has a rank in at
/// least one of them.
pub proof fn lemma_merged_rows_are_ranked(vector_ids: Seq<u64>, fts_ids: Seq<u64>, id: u64)
    requires
        (vector_ids + fts_ids).contains(id),
    ensures
        first_position(vector_ids, id) is Some || first_position(fts_ids, id) is Some,
{
    lemma_first_position(vector_ids, id);
    lemma_first_position(fts_ids, id);
    let k = choose|k: int| 0 <= k < (vector_ids + fts_ids).len() && (vector_ids + fts_ids)[k] == id;
    if k < vector_ids.len() {
        assert(vector_ids[k] == id);
    } else {
        assert(fts_ids[k - vector_ids.len()] == id);
    }
}

/// The rows that the relevance merge keeps (the first row of each id of the
/// vector rows followed by the full-text rows) are each ranked, once.
pub proof fn lemma_relevance_merge_rows(vector_ids: Seq<u64>, fts_ids: Seq<u64>)
    ensures
        dedup_ids(vector_ids + fts_ids).no_duplicates(),
        forall|id: u64| #[trigger] dedup_ids(vector_ids + fts_ids).contains(id) ==> (first_position(vector_ids, id) is Some
            || first_position(fts_ids, id) is Some),
{
    lemma_dedup_ids(vector_ids + fts_ids);
    assert forall|id: u64| #[trigger] dedup_ids(vector_ids + fts_ids).contains(id) implies (first_position(vector_ids, id) is Some
        || first_position(fts_ids, id) is Some) by {
        lemma_merged_rows_are_ranked(vector_ids, fts_ids, id);
    }
}

/// The score of full-text row `j`: its `_score`, or null where the results
/// have no `_score` column.
pub open spec fn fts_row_score(fts_scores: Option<Seq<ScoreBits>>, j: int) -> ScoreBits {
    match fts_scores {
        Some(s) => s[j],
        None => None,
    }
}

/// The `_score` that the merge gives a vector row follows the full-text
/// results: a vector row whose id no full-text row carries gets a null
/// score; any other gets the score of the last full-text row with its id.
pub proof fn lemma_vector_scores_follow_fts(
    vector_ids: Seq<u64>,
    fts_ids: Seq<u64>,
    fts_scores: Option<Seq<ScoreBits>>,
    i: int,
)
    requires
        0 <= i < vector_ids.len(),
        fts_scores matches Some(s) ==> s.len() == fts_ids.len(),
    ensures
        !fts_ids.contains(vector_ids[i]) ==> vector_score_column(vector_ids, fts_score_map(fts_ids, fts_scores))[i] is None,
        forall|j: int| #[trigger] is_last_occurrence(fts_ids, j) && fts_ids[j] == vector_ids[i] ==> vector_score_column(
            vector_ids,
            fts_score_map(fts_ids, fts_scores),
        )[i] == fts_row_score(fts_scores, j),
{
    let nulls = Seq::new(fts_ids.len(), |k: int| None::<u32>);
    match fts_scores {
        Some(sc) => lemma_scores_by_id_last(fts_ids, sc),
        None => lemma_scores_by_id_last(fts_ids, nulls),
    }
    let col = vector_score_column(vector_ids, fts_score_map(fts_ids, fts_scores));
    assert forall|j: int| #[trigger] is_last_occurrence(fts_ids, j) && fts_ids[j] == vector_ids[i] implies col[i]
        == fts_row_score(fts_scores, j) by {
        assert(fts_ids.contains(fts_ids[j]));
    }
}

} // verus!

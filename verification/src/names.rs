//! Column names: look-ups by name and the messages that name missing columns.
use vstd::prelude::*;
use vstd::string::*;

verus! {

/// Name of the row-id column.
pub const ROW_ID: &'static str = "_rowid";

/// Name of the full-text-search score column.
pub const SCORE_COL: &'static str = "_score";

/// Name of the vector-search distance column.
pub const DIST_COL: &'static str = "_distance";

/// Name of the column that rerankers add.
pub const RELEVANCE_SCORE: &'static str = "_relevance_score";

/// Views of a sequence of strings.
pub open spec fn string_views(names: Seq<String>) -> Seq<Seq<char>> {
    names.map_values(|n: String| n@)
}

/// The position of the first `x` in `s`.
pub open spec fn first_position<T>(s: Seq<T>, x: T) -> Option<nat>
    decreases s.len(),
{
    if s.len() == 0 {
        None
    } else {
        match first_position(s.drop_last(), x) {
            Some(p) => Some(p),
            None => if s.last() == x {
                Some((s.len() - 1) as nat)
            } else {
                None
            },
        }
    }
}

pub proof fn lemma_first_position<T>(s: Seq<T>, x: T)
    ensures
        first_position(s, x) is Some <==> s.contains(x),
        first_position(s, x) matches Some(p) ==> p < s.len() && s[p as int] == x
            && !s.take(p as int).contains(x),
    decreases s.len(),
{
    if s.len() > 0 {
        let prev = s.drop_last();
        lemma_first_position(prev, x);
        if prev.contains(x) {
            let k = choose|k: int| 0 <= k < prev.len() && prev[k] == x;
            assert(s[k] == x);
        }
        if s.contains(x) && !prev.contains(x) {
            let k = choose|k: int| 0 <= k < s.len() && s[k] == x;
            if k < s.len() - 1 {
                assert(prev[k] == x);
            }
        }
        match first_position(prev, x) {
            Some(p) => {
                assert(s.take(p as int) == prev.take(p as int));
            },
            None => {
                assert(s.take(s.len() - 1) == prev);
            },
        }
    }
}

pub proof fn lemma_first_position_at<T>(s: Seq<T>, x: T, q: int)
    requires
        0 <= q < s.len(),
        s[q] == x,
        !s.take(q).contains(x),
    ensures
        first_position(s, x) == Some(q as nat),
{
    lemma_first_position(s, x);
    let p = first_position(s, x)->0 as int;
    if p < q {
        assert(s.take(q)[p] == x);
    } else if p > q {
        assert(s.take(p)[q] == x);
    }
}

/// The position of the first column called `name`.
pub fn find_name(names: &Vec<String>, name: &String) -> (r: Option<usize>)
    ensures
        match first_position(string_views(names@), name@) {
            Some(p) => r == Some(p as usize),
            None => r is None,
        },
        r matches Some(i) ==> first_position(string_views(names@), name@) == Some(i as nat),
{
    let ghost views = string_views(names@);
    let mut i: usize = 0;
    while i < names.len()
        invariant
            i <= names@.len(),
            views == string_views(names@),
            first_position(views.take(i as int), name@) is None,
        decreases names@.len() - i,
    {
        proof {
            assert(views.take(i as int + 1).drop_last() == views.take(i as int));
            assert(views.take(i as int + 1).last() == names@[i as int]@);
        }
        if names[i] == *name {
            proof {
                lemma_first_position(views.take(i as int + 1), name@);
                lemma_first_position(views, name@);
                let fp = first_position(views, name@);
                assert(views.take(i as int + 1).contains(name@));
                assert(views.contains(name@)) by {
                    assert(views[i as int] == name@);
                }
                let p = fp->0;
                if p < i {
                    assert(views.take(i as int)[p as int] == name@);
                    lemma_first_position(views.take(i as int), name@);
                } else if p > i {
                    assert(views.take(p as int)[i as int] == name@);
                }
            }
            return Some(i);
        }
        i = i + 1;
    }
    proof {
        assert(views.take(names@.len() as int) == views);
    }
    None
}

/// Whether some column is called `name`.
pub fn has_name(names: &Vec<String>, name: &String) -> (r: bool)
    ensures
        r == string_views(names@).contains(name@),
{
    proof {
        lemma_first_position(string_views(names@), name@);
    }
    find_name(names, name).is_some()
}

/// How `format!("{:?}", list)` writes a list of strings.
pub uninterp spec fn debug_list(items: Seq<Seq<char>>) -> Seq<char>;

/// `format!("{:?}", items)` on a `Vec<String>` (std's `Debug` for a slice of
/// strings): the contract names the text it writes and claims it depends on
/// the strings alone.
#[verifier::external_body]
fn format_debug_list(items: &Vec<String>) -> (r: String)
    ensures
        r@ == debug_list(string_views(items@)),
{
    format!("{:?}", items)
}

/// The message for a column that an operation expected and did not find.
pub open spec fn missing_column_text(column: Seq<char>, context: Seq<char>, names: Seq<Seq<char>>) -> Seq<char> {
    "expected column "@ + column + " not found in "@ + context + ". found columns "@ + debug_list(names)
}

/// "expected column {column} not found in {context}. found columns {names:?}".
pub fn missing_column_message(column: &str, context: &str, names: &Vec<String>) -> (m: String)
    ensures
        m@ == missing_column_text(column@, context@, string_views(names@)),
{
    let listed = format_debug_list(names);
    let m = String::from_str("expected column ");
    let m = m.concat(column);
    let m = m.concat(" not found in ");
    let m = m.concat(context);
    let m = m.concat(". found columns ");
    m.concat(listed.as_str())
}

/// A copy of a list of names.
pub fn copy_names(names: &Vec<String>) -> (r: Vec<String>)
    ensures
        string_views(r@) == string_views(names@),
{
    let mut out: Vec<String> = Vec::new();
    let mut i: usize = 0;
    while i < names.len()
        invariant
            i <= names@.len(),
            out@.len() == i,
            forall|j: int| 0 <= j < i ==> out@[j]@ == names@[j]@,
        decreases names@.len() - i,
    {
        out.push(names[i].clone());
        i = i + 1;
    }
    proof {
        assert(string_views(out@) =~= string_views(names@));
    }
    out
}

} // verus!

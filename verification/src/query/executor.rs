//! Query execution: filtering, sorting, skip, limit and projection over a
//! vector of documents.
use vstd::prelude::*;
use vstd::multiset::Multiset;
use vstd::utf8::encode_utf8;
use crate::document::{Document, Value, same_value, seq_has_value, get_path, value_eq, contains_value};
use crate::query::ast::{Filter, Projection, ProjectionType, Query, Sort, SortOrder, projection_keeps};
use crate::query::planner::{QueryPlanner, QueryPlanError};
use crate::regex_match::{regex_outcome, regex_is_match};
use crate::util::{Order, lex_order, str_order_spec, str_order, bytes_order, concat_str, lemma_str_order_flip, lemma_lex_order_flip, lemma_str_order_equal, lemma_lex_order_equal};

verus! {

broadcast use vstd::std_specs::vec::axiom_vec_index_decreases;

/// Query execution errors.
#[derive(Debug)]
pub enum QueryExecutionError {
    InvalidRegex(String),
    PlanningError(QueryPlanError),
    ExecutionError(String),
}

/// The query executor.
pub struct QueryExecutor {
    pub planner: QueryPlanner,
}

// ---------------------------------------------------------------------
// Specifications
// ---------------------------------------------------------------------
pub open spec fn int_order(a: int, b: int) -> Order {
    if a < b {
        Order::Less
    } else if a > b {
        Order::Greater
    } else {
        Order::Equal
    }
}

/// The order used by range conditions and sorting. `Null` sorts first;
/// integers compare by value across widths; strings, timestamps and
/// object ids compare within their kind; values of unrelated kinds compare
/// equal.
pub open spec fn value_order(a: Value, b: Value) -> Order {
    match (a, b) {
        (Value::Null, Value::Null) => Order::Equal,
        (Value::Null, _) => Order::Less,
        (_, Value::Null) => Order::Greater,
        (Value::Bool(x), Value::Bool(y)) => int_order(if x { 1int } else { 0int }, if y { 1int } else { 0int }),
        (Value::Int32(x), Value::Int32(y)) => int_order(x as int, y as int),
        (Value::Int64(x), Value::Int64(y)) => int_order(x as int, y as int),
        (Value::Int32(x), Value::Int64(y)) => int_order(x as int, y as int),
        (Value::Int64(x), Value::Int32(y)) => int_order(x as int, y as int),
        (Value::String(x), Value::String(y)) => str_order_spec(x@, y@),
        (Value::DateTime(x), Value::DateTime(y)) => int_order(x as int, y as int),
        (Value::ObjectId(x), Value::ObjectId(y)) => lex_order(x@, y@),
        _ => Order::Equal,
    }
}

/// The regex options ask for case-insensitive matching (they hold an `i`).
pub open spec fn case_insensitive(options: Option<String>) -> bool {
    options matches Some(o) && encode_utf8(o@).contains(105u8)
}

/// The pattern actually compiled: prefixed with `(?i)` when matching is
/// case-insensitive.
pub open spec fn effective_pattern(pattern: Seq<char>, options: Option<String>) -> Seq<char> {
    if case_insensitive(options) {
        "(?i)"@ + pattern
    } else {
        pattern
    }
}

/// Whether a document with fields `fs` matches `f`, or the text of the
/// error of an invalid regular expression met on the way.
pub open spec fn filter_matches(fs: Seq<(String, Value)>, f: Filter) -> Result<bool, Seq<char>>
    decreases f,
{
    match f {
        Filter::Empty => Ok(true),
        Filter::Eq { field, value } => Ok(
            match get_path(fs, field@) {
                Some(v) => same_value(v, value),
                None => false,
            },
        ),
        Filter::Ne { field, value } => Ok(
            match get_path(fs, field@) {
                Some(v) => !same_value(v, value),
                None => true,
            },
        ),
        Filter::Gt { field, value } => Ok(
            match get_path(fs, field@) {
                Some(v) => value_order(v, value) == Order::Greater,
                None => false,
            },
        ),
        Filter::Gte { field, value } => Ok(
            match get_path(fs, field@) {
                Some(v) => value_order(v, value) != Order::Less,
                None => false,
            },
        ),
        Filter::Lt { field, value } => Ok(
            match get_path(fs, field@) {
                Some(v) => value_order(v, value) == Order::Less,
                None => false,
            },
        ),
        Filter::Lte { field, value } => Ok(
            match get_path(fs, field@) {
                Some(v) => value_order(v, value) != Order::Greater,
                None => false,
            },
        ),
        Filter::In { field, values } => Ok(
            match get_path(fs, field@) {
                Some(v) => seq_has_value(values@, v),
                None => false,
            },
        ),
        Filter::Nin { field, values } => Ok(
            match get_path(fs, field@) {
                Some(v) => !seq_has_value(values@, v),
                None => true,
            },
        ),
        Filter::Exists { field, exists } => Ok(get_path(fs, field@) is Some == exists),
        Filter::Regex { field, pattern, options } => match get_path(fs, field@) {
            Some(Value::String(s)) => regex_outcome(effective_pattern(pattern@, options), s@),
            _ => Ok(false),
        },
        Filter::And(filters) => all_match(fs, filters@),
        Filter::Or(filters) => any_match(fs, filters@),
        Filter::Not(inner) => match filter_matches(fs, *inner) {
            Ok(b) => Ok(!b),
            Err(e) => Err(e),
        },
    }
}

/// Conjunction, stopping at the first branch that fails or errs.
pub open spec fn all_match(fs: Seq<(String, Value)>, filters: Seq<Filter>) -> Result<bool, Seq<char>>
    decreases filters,
{
    if filters.len() == 0 {
        Ok(true)
    } else {
        match filter_matches(fs, filters[0]) {
            Err(e) => Err(e),
            Ok(false) => Ok(false),
            Ok(true) => all_match(fs, filters.drop_first()),
        }
    }
}

/// Disjunction, stopping at the first branch that holds or errs.
pub open spec fn any_match(fs: Seq<(String, Value)>, filters: Seq<Filter>) -> Result<bool, Seq<char>>
    decreases filters,
{
    if filters.len() == 0 {
        Ok(false)
    } else {
        match filter_matches(fs, filters[0]) {
            Err(e) => Err(e),
            Ok(true) => Ok(true),
            Ok(false) => any_match(fs, filters.drop_first()),
        }
    }
}

/// The documents that match, in their order, or the first error.
pub open spec fn scan(docs: Seq<Document>, f: Filter) -> Result<Seq<Document>, Seq<char>>
    decreases docs.len(),
{
    if docs.len() == 0 {
        Ok(Seq::empty())
    } else {
        match filter_matches(docs[0].fields@, f) {
            Err(e) => Err(e),
            Ok(b) => match scan(docs.drop_first(), f) {
                Err(e) => Err(e),
                Ok(rest) => Ok(
                    if b {
                        seq![docs[0]] + rest
                    } else {
                        rest
                    },
                ),
            },
        }
    }
}

/// Order of two documents on one sort key: by the value at the key's path,
/// a missing value sorting first.
pub open spec fn key_order(a: Seq<(String, Value)>, b: Seq<(String, Value)>, field: Seq<char>) -> Order {
    match (get_path(a, field), get_path(b, field)) {
        (Some(x), Some(y)) => value_order(x, y),
        (Some(_), None) => Order::Greater,
        (None, Some(_)) => Order::Less,
        (None, None) => Order::Equal,
    }
}

/// Order of two documents under a list of sort keys.
#[verifier::opaque]
pub open spec fn docs_order(a: Seq<(String, Value)>, b: Seq<(String, Value)>, keys: Seq<(String, SortOrder)>) -> Order
    decreases keys.len(),
{
    if keys.len() == 0 {
        Order::Equal
    } else {
        let c0 = key_order(a, b, keys[0].0@);
        let c = if keys[0].1 == SortOrder::Descending {
            c0.flip()
        } else {
            c0
        };
        if c != Order::Equal {
            c
        } else {
            docs_order(a, b, keys.drop_first())
        }
    }
}

/// No two neighbours are out of order.
pub open spec fn sorted_by_keys(s: Seq<Document>, keys: Seq<(String, SortOrder)>) -> bool {
    forall|i: int|
        #![trigger docs_order(s[i].fields@, s[i + 1].fields@, keys)]
        0 <= i < s.len() - 1 ==> docs_order(s[i].fields@, s[i + 1].fields@, keys) != Order::Greater
}

/// `s` is what sorting `m` may give: the same documents, neighbours in order.
pub open spec fn sorted_version(m: Seq<Document>, s: Seq<Document>, sort: Option<Sort>) -> bool {
    match sort {
        None => s == m,
        Some(so) => s.to_multiset() == m.to_multiset() && sorted_by_keys(s, so.fields@),
    }
}

/// Skip and limit.
pub open spec fn window(s: Seq<Document>, skip: Option<u64>, limit: Option<u64>) -> Seq<Document> {
    let a = match skip {
        Some(k) => if k >= s.len() {
            Seq::empty()
        } else {
            s.subrange(k as int, s.len() as int)
        },
        None => s,
    };
    match limit {
        Some(l) => if l >= a.len() {
            a
        } else {
            a.take(l as int)
        },
        None => a,
    }
}

/// The fields of `fs` that the projection keeps, in order.
pub open spec fn project_fields(fs: Seq<(String, Value)>, p: Seq<(String, ProjectionType)>) -> Seq<(String, Value)>
    decreases fs.len(),
{
    if fs.len() == 0 {
        Seq::empty()
    } else {
        let rest = project_fields(fs.drop_last(), p);
        if projection_keeps(p, fs.last().0@) {
            rest.push(fs.last())
        } else {
            rest
        }
    }
}

/// `out` is `t` with the projection applied to every document.
pub open spec fn projected(out: Seq<Document>, t: Seq<Document>, p: Option<Projection>) -> bool {
    match p {
        None => out == t,
        Some(pr) => out.len() == t.len() && forall|i: int|
            0 <= i < t.len() ==> (#[trigger] out[i]).id == t[i].id && out[i].fields@
                == project_fields(t[i].fields@, pr.fields@),
    }
}

/// What executing `q` over `docs` returns: the first regex error met while
/// filtering, or the matching documents, sorted, windowed and projected.
pub open spec fn execution_result(docs: Seq<Document>, q: Query, out: Result<Seq<Document>, Seq<char>>) -> bool {
    match out {
        Err(e) => scan(docs, q.filter) == Err::<Seq<Document>, Seq<char>>(e),
        Ok(o) => scan(docs, q.filter) matches Ok(m) && exists|s: Seq<Document>|
            #![trigger sorted_version(m, s, q.sort)]
            sorted_version(m, s, q.sort) && projected(o, window(s, q.skip, q.limit), q.projection),
    }
}

// ---------------------------------------------------------------------
// Lemmas
// ---------------------------------------------------------------------
/// Comparing two values the other way round gives the opposite order.
/// Every value orders equal to itself.
pub proof fn lemma_value_order_refl(a: Value)
    ensures
        value_order(a, a) == Order::Equal,
{
    match a {
        Value::String(x) => lemma_str_order_equal(x@, x@),
        Value::ObjectId(x) => lemma_lex_order_equal(x@, x@),
        _ => {},
    }
}

/// How a value orders against another depends only on the other's model.
pub proof fn lemma_value_order_by_model(x: Value, w1: Value, w2: Value)
    requires
        crate::document::model_of(w1) == crate::document::model_of(w2),
    ensures
        value_order(x, w1) == value_order(x, w2),
{
}

/// A value orders equal to any value with the same model.
pub proof fn lemma_value_order_same_model(x: Value, w: Value)
    requires
        crate::document::model_of(x) == crate::document::model_of(w),
    ensures
        value_order(x, w) == Order::Equal,
{
    lemma_value_order_refl(w);
    lemma_value_order_by_model(x, x, w);
    lemma_value_order_refl(x);
    match (x, w) {
        (Value::String(a), Value::String(b)) => lemma_str_order_equal(a@, b@),
        (Value::ObjectId(a), Value::ObjectId(b)) => lemma_lex_order_equal(a@, b@),
        _ => {},
    }
}

proof fn lemma_all_match(fs: Seq<(String, Value)>, filters: Seq<Filter>)
    requires
        forall|i: int| 0 <= i < filters.len() ==> (#[trigger] filter_matches(fs, filters[i])) is Ok,
    ensures
        all_match(fs, filters) == Ok::<bool, Seq<char>>(
            forall|i: int| 0 <= i < filters.len() ==> #[trigger] filter_matches(fs, filters[i]) == Ok::<bool, Seq<char>>(true)),
        any_match(fs, filters) == Ok::<bool, Seq<char>>(
            exists|i: int| 0 <= i < filters.len() && #[trigger] filter_matches(fs, filters[i]) == Ok::<bool, Seq<char>>(true)),
    decreases filters.len(),
{
    if filters.len() > 0 {
        let rest = filters.drop_first();
        assert forall|i: int| 0 <= i < rest.len() implies (#[trigger] filter_matches(fs, rest[i])) is Ok by {
            assert(rest[i] == filters[i + 1]);
        }
        lemma_all_match(fs, rest);
        assert(filter_matches(fs, filters[0]) is Ok);
        if filter_matches(fs, filters[0]) == Ok::<bool, Seq<char>>(true) {
            assert forall|i: int| 0 <= i < filters.len() && i > 0 implies
                #[trigger] filter_matches(fs, filters[i]) == filter_matches(fs, rest[i - 1]) by {}
        } else {
            assert forall|i: int| 0 <= i < filters.len() && i > 0 implies
                #[trigger] filter_matches(fs, filters[i]) == filter_matches(fs, rest[i - 1]) by {}
        }
    }
}

/// The logical filters: a conjunction matches exactly when every member
/// does, a disjunction exactly when some member does (when no member meets
/// an invalid regular expression), and a negation exactly when its inner
/// filter does not. `$in` and `$nin` on the same values, and `$exists`
/// true and false on the same field, are each other's negation; a document
/// holding a listed value matches `$in`, and `$exists` true matches exactly
/// the documents holding the field.
pub proof fn lemma_logical_filters(fs: Seq<(String, Value)>, filters: Vec<Filter>, inner: Filter, field: String, values: Vec<Value>)
    ensures
        (forall|i: int| 0 <= i < filters@.len() ==> (#[trigger] filter_matches(fs, filters@[i])) is Ok) ==> {
            &&& filter_matches(fs, Filter::And(filters)) == Ok::<bool, Seq<char>>(
                forall|i: int| 0 <= i < filters@.len() ==> #[trigger] filter_matches(fs, filters@[i]) == Ok::<bool, Seq<char>>(true))
            &&& filter_matches(fs, Filter::Or(filters)) == Ok::<bool, Seq<char>>(
                exists|i: int| 0 <= i < filters@.len() && #[trigger] filter_matches(fs, filters@[i]) == Ok::<bool, Seq<char>>(true))
        },
        filter_matches(fs, inner) matches Ok(b) ==> filter_matches(fs, Filter::Not(Box::new(inner))) == Ok::<bool, Seq<char>>(!b),
        filter_matches(fs, Filter::In { field, values }) matches Ok(a)
            && filter_matches(fs, Filter::Nin { field, values }) matches Ok(b) && a == !b,
        (get_path(fs, field@) matches Some(x) && exists|i: int| 0 <= i < values@.len() && values@[i] == x)
            ==> filter_matches(fs, Filter::In { field, values }) == Ok::<bool, Seq<char>>(true),
        filter_matches(fs, Filter::Exists { field, exists: true }) == Ok::<bool, Seq<char>>(get_path(fs, field@) is Some),
        filter_matches(fs, Filter::Exists { field, exists: false }) == Ok::<bool, Seq<char>>(get_path(fs, field@) is None),
{
    if forall|i: int| 0 <= i < filters@.len() ==> (#[trigger] filter_matches(fs, filters@[i])) is Ok {
        lemma_all_match(fs, filters@);
    }
    if let Some(x) = get_path(fs, field@) {
        if exists|i: int| 0 <= i < values@.len() && values@[i] == x {
            let i = choose|i: int| 0 <= i < values@.len() && values@[i] == x;
            assert(same_value(values@[i], x));
        }
    }
}

/// The comparison filters on a field of a document. Where the document
/// holds the field, `$lt` matches exactly when `$gte` does not, `$gt`
/// exactly when `$lte` does not, and `$eq` exactly when `$ne` does not;
/// a field holding the filter value itself matches `$eq`, `$lte` and
/// `$gte`, and neither `$lt`, `$gt` nor `$ne`. A document without the field
/// matches none of the order comparisons and `$eq`, and matches `$ne`.
pub proof fn lemma_comparison_filters(fs: Seq<(String, Value)>, field: String, v: Value)
    ensures
        get_path(fs, field@) is Some ==> {
            &&& filter_matches(fs, Filter::Lt { field, value: v }) matches Ok(lt)
            &&& filter_matches(fs, Filter::Gte { field, value: v }) matches Ok(gte)
            &&& filter_matches(fs, Filter::Gt { field, value: v }) matches Ok(gt)
            &&& filter_matches(fs, Filter::Lte { field, value: v }) matches Ok(lte)
            &&& filter_matches(fs, Filter::Eq { field, value: v }) matches Ok(eq)
            &&& filter_matches(fs, Filter::Ne { field, value: v }) matches Ok(ne)
            &&& lt == !gte && gt == !lte && eq == !ne
        },
        get_path(fs, field@) == Some(v) ==> {
            &&& filter_matches(fs, Filter::Lt { field, value: v }) == Ok::<bool, Seq<char>>(false)
            &&& filter_matches(fs, Filter::Gt { field, value: v }) == Ok::<bool, Seq<char>>(false)
            &&& filter_matches(fs, Filter::Lte { field, value: v }) == Ok::<bool, Seq<char>>(true)
            &&& filter_matches(fs, Filter::Gte { field, value: v }) == Ok::<bool, Seq<char>>(true)
            &&& filter_matches(fs, Filter::Eq { field, value: v }) == Ok::<bool, Seq<char>>(true)
            &&& filter_matches(fs, Filter::Ne { field, value: v }) == Ok::<bool, Seq<char>>(false)
        },
        get_path(fs, field@) is None ==> {
            &&& filter_matches(fs, Filter::Lt { field, value: v }) == Ok::<bool, Seq<char>>(false)
            &&& filter_matches(fs, Filter::Gt { field, value: v }) == Ok::<bool, Seq<char>>(false)
            &&& filter_matches(fs, Filter::Lte { field, value: v }) == Ok::<bool, Seq<char>>(false)
            &&& filter_matches(fs, Filter::Gte { field, value: v }) == Ok::<bool, Seq<char>>(false)
            &&& filter_matches(fs, Filter::Eq { field, value: v }) == Ok::<bool, Seq<char>>(false)
            &&& filter_matches(fs, Filter::Ne { field, value: v }) == Ok::<bool, Seq<char>>(true)
        },
{
    lemma_value_order_refl(v);
}

/// Whether `x` lies strictly below, at, or strictly above the filter value
/// decides the order comparisons: a document holding `x` matches `$lt v`
/// exactly when `x` orders below `v`, so a document matching `$lt v` never
/// holds `v` itself, and one matching `$lte v` but not `$lt v` holds a
/// value that orders equal to `v`.
pub proof fn lemma_lt_is_strict(fs: Seq<(String, Value)>, field: String, v: Value, x: Value)
    requires
        get_path(fs, field@) == Some(x),
    ensures
        filter_matches(fs, Filter::Lt { field, value: v }) == Ok::<bool, Seq<char>>(true)
            ==> value_order(x, v) == Order::Less && x != v,
        (filter_matches(fs, Filter::Lte { field, value: v }) == Ok::<bool, Seq<char>>(true)
            && filter_matches(fs, Filter::Lt { field, value: v }) == Ok::<bool, Seq<char>>(false))
            ==> value_order(x, v) == Order::Equal,
{
    lemma_value_order_refl(v);
}

pub proof fn lemma_value_order_flip(a: Value, b: Value)
    ensures
        value_order(b, a) == value_order(a, b).flip(),
{
    match (a, b) {
        (Value::String(x), Value::String(y)) => lemma_str_order_flip(x@, y@),
        (Value::ObjectId(x), Value::ObjectId(y)) => lemma_lex_order_flip(x@, y@),
        _ => {},
    }
}

/// Comparing two documents by sort keys the other way round gives the
/// opposite order.
pub proof fn lemma_docs_order_flip(a: Seq<(String, Value)>, b: Seq<(String, Value)>, keys: Seq<(String, SortOrder)>)
    ensures
        docs_order(b, a, keys) == docs_order(a, b, keys).flip(),
    decreases keys.len(),
{
    reveal(docs_order);
    if keys.len() > 0 {
        let f = keys[0].0@;
        match (get_path(a, f), get_path(b, f)) {
            (Some(x), Some(y)) => lemma_value_order_flip(x, y),
            _ => {},
        }
        lemma_docs_order_flip(a, b, keys.drop_first());
    }
}

// ---------------------------------------------------------------------
// Execution
// ---------------------------------------------------------------------
impl QueryExecutor {
    /// An executor with a fresh planner.
    pub fn new() -> (r: QueryExecutor)
        ensures
            r.planner.index_selector.available_indexes@.len() == 0,
    {
        QueryExecutor { planner: QueryPlanner::new() }
    }

    /// Runs `query` over `documents`.
    pub fn execute(&self, documents: Vec<Document>, query: &Query) -> (r: Result<Vec<Document>, QueryExecutionError>)
        requires
            query.projection matches Some(p) ==> p.wf(),
        ensures
            match r {
                Ok(o) => execution_result(documents@, *query, Ok(o@)),
                Err(QueryExecutionError::InvalidRegex(e)) => execution_result(documents@, *query, Err(e@)),
                Err(_) => false,
            },
    {
        let plan = match self.planner.create_plan(query) {
            Ok(p) => p,
            Err(e) => return Err(QueryExecutionError::PlanningError(e)),
        };
        let ghost docs = documents@;
        let results = if plan.use_index.is_some() {
            self.execute_index_scan(documents, query)
        } else {
            self.execute_collection_scan(documents, query)
        };
        let results = match results {
            Ok(v) => v,
            Err(e) => return Err(e),
        };
        let ghost matched = results@;
        let out = self.apply_post_processing(results, query);
        proof {
            assert(scan(docs, query.filter) == Ok::<Seq<Document>, Seq<char>>(matched));
            let s = choose|s: Seq<Document>|
                sorted_version(matched, s, query.sort) && projected(out@, window(s, query.skip, query.limit), query.projection);
            assert(sorted_version(matched, s, query.sort) && projected(out@, window(s, query.skip, query.limit), query.projection));
            assert(exists|s2: Seq<Document>|
                #![trigger sorted_version(matched, s2, query.sort)]
                sorted_version(matched, s2, query.sort) && projected(out@, window(s2, query.skip, query.limit), query.projection));
            assert(scan(docs, query.filter) matches Ok(m) && m == matched);
            assert(execution_result(docs, *query, Ok::<Seq<Document>, Seq<char>>(out@)));
        }
        Ok(out)
    }

    /// Keeps the documents that match the filter, in order.
    fn execute_collection_scan(&self, documents: Vec<Document>, query: &Query) -> (r: Result<Vec<Document>, QueryExecutionError>)
        ensures
            match r {
                Ok(v) => scan(documents@, query.filter) == Ok::<Seq<Document>, Seq<char>>(v@),
                Err(QueryExecutionError::InvalidRegex(e)) => scan(documents@, query.filter) == Err::<Seq<Document>, Seq<char>>(e@),
                Err(_) => false,
            },
    {
        let ghost orig = documents@;
        let mut docs = documents;
        let mut results: Vec<Document> = Vec::new();
        while docs.len() > 0
            invariant
                orig == documents@,
                scan(orig, query.filter) == match scan(docs@, query.filter) {
                    Ok(rest) => Ok(results@ + rest),
                    Err(e) => Err(e),
                },
            decreases docs.len(),
        {
            let ghost before = docs@;
            let doc = docs.remove(0);
            assert(docs@ =~= before.drop_first());
            match self.matches_filter(&doc, &query.filter) {
                Ok(true) => {
                    let ghost r0 = results@;
                    results.push(doc);
                    proof {
                        match scan(docs@, query.filter) {
                            Ok(rest) => {
                                assert(r0 + (seq![before[0]] + rest) =~= results@ + rest);
                            },
                            Err(_) => {},
                        }
                    }
                },
                Ok(false) => {},
                Err(QueryExecutionError::InvalidRegex(m)) => {
                    proof {
                        assert(before[0] == doc);
                        assert(scan(before, query.filter) == Err::<Seq<Document>, Seq<char>>(m@));
                        assert(scan(orig, query.filter) == Err::<Seq<Document>, Seq<char>>(m@));
                    }
                    let res: Result<Vec<Document>, QueryExecutionError> = Err(QueryExecutionError::InvalidRegex(m));
                    assert(match res {
                        Ok(v) => scan(orig, query.filter) == Ok::<Seq<Document>, Seq<char>>(v@),
                        Err(QueryExecutionError::InvalidRegex(e)) => scan(orig, query.filter) == Err::<Seq<Document>, Seq<char>>(e@),
                        Err(_) => false,
                    });
                    return res;
                },
                Err(other) => {
                    return Err(other);
                },
            }
        }
        assert(results@ + Seq::<Document>::empty() =~= results@);
        Ok(results)
    }

    /// Index scans are not available yet and read the whole collection.
    fn execute_index_scan(&self, documents: Vec<Document>, query: &Query) -> (r: Result<Vec<Document>, QueryExecutionError>)
        ensures
            match r {
                Ok(v) => scan(documents@, query.filter) == Ok::<Seq<Document>, Seq<char>>(v@),
                Err(QueryExecutionError::InvalidRegex(e)) => scan(documents@, query.filter) == Err::<Seq<Document>, Seq<char>>(e@),
                Err(_) => false,
            },
    {
        self.execute_collection_scan(documents, query)
    }

    /// Whether the document matches the filter.
    #[verifier::loop_isolation(false)]
    pub fn matches_filter(&self, doc: &Document, filter: &Filter) -> (r: Result<bool, QueryExecutionError>)
        ensures
            match r {
                Ok(b) => filter_matches(doc.fields@, *filter) == Ok::<bool, Seq<char>>(b),
                Err(QueryExecutionError::InvalidRegex(e)) => filter_matches(doc.fields@, *filter) == Err::<bool, Seq<char>>(e@),
                Err(_) => false,
            },
        decreases filter,
    {
        match filter {
            Filter::Empty => Ok(true),
            Filter::Eq { field, value } => {
                let r = match doc.get_by_path(field.as_str()) {
                    Some(v) => value_eq(v, value),
                    None => false,
                };
                Ok(r)
            },
            Filter::Ne { field, value } => {
                let r = match doc.get_by_path(field.as_str()) {
                    Some(v) => !value_eq(v, value),
                    None => true,
                };
                Ok(r)
            },
            Filter::Gt { field, value } => {
                let r = match doc.get_by_path(field.as_str()) {
                    Some(v) => compare_values(v, value) == Order::Greater,
                    None => false,
                };
                Ok(r)
            },
            Filter::Gte { field, value } => {
                let r = match doc.get_by_path(field.as_str()) {
                    Some(v) => {
                        let c = compare_values(v, value);
                        c == Order::Greater || c == Order::Equal
                    },
                    None => false,
                };
                Ok(r)
            },
            Filter::Lt { field, value } => {
                let r = match doc.get_by_path(field.as_str()) {
                    Some(v) => compare_values(v, value) == Order::Less,
                    None => false,
                };
                Ok(r)
            },
            Filter::Lte { field, value } => {
                let r = match doc.get_by_path(field.as_str()) {
                    Some(v) => {
                        let c = compare_values(v, value);
                        c == Order::Less || c == Order::Equal
                    },
                    None => false,
                };
                Ok(r)
            },
            Filter::In { field, values } => {
                let r = match doc.get_by_path(field.as_str()) {
                    Some(v) => contains_value(values, v),
                    None => false,
                };
                Ok(r)
            },
            Filter::Nin { field, values } => {
                let r = match doc.get_by_path(field.as_str()) {
                    Some(v) => !contains_value(values, v),
                    None => true,
                };
                Ok(r)
            },
            Filter::Exists { field, exists } => {
                let has_field = doc.get_by_path(field.as_str()).is_some();
                Ok(has_field == *exists)
            },
            Filter::Regex { field, pattern, options } => {
                match doc.get_by_path(field.as_str()) {
                    Some(Value::String(s)) => {
                        let ci = match options {
                            Some(o) => has_byte(o.as_str().as_bytes(), 105u8),
                            None => false,
                        };
                        let outcome = if ci {
                            let full = concat_str("(?i)", pattern.as_str());
                            regex_is_match(full.as_str(), s.as_str())
                        } else {
                            regex_is_match(pattern.as_str(), s.as_str())
                        };
                        match outcome {
                            Ok(b) => Ok(b),
                            Err(e) => Err(QueryExecutionError::InvalidRegex(e)),
                        }
                    },
                    _ => Ok(false),
                }
            },
            Filter::And(filters) => {
                let mut i: usize = 0;
                assert(filters@.skip(0) =~= filters@);
                while i < filters.len()
                    invariant
                        i <= filters.len(),
                        all_match(doc.fields@, filters@) == all_match(doc.fields@, filters@.skip(i as int)),
                    decreases filters.len() - i,
                {
                    assert(filters@.skip(i as int).drop_first() =~= filters@.skip(i + 1));
                    match self.matches_filter(doc, &filters[i]) {
                        Ok(true) => {},
                        Ok(false) => return Ok(false),
                        Err(e) => return Err(e),
                    }
                    i = i + 1;
                }
                Ok(true)
            },
            Filter::Or(filters) => {
                let mut i: usize = 0;
                assert(filters@.skip(0) =~= filters@);
                while i < filters.len()
                    invariant
                        i <= filters.len(),
                        any_match(doc.fields@, filters@) == any_match(doc.fields@, filters@.skip(i as int)),
                    decreases filters.len() - i,
                {
                    assert(filters@.skip(i as int).drop_first() =~= filters@.skip(i + 1));
                    match self.matches_filter(doc, &filters[i]) {
                        Ok(true) => return Ok(true),
                        Ok(false) => {},
                        Err(e) => return Err(e),
                    }
                    i = i + 1;
                }
                Ok(false)
            },
            Filter::Not(inner) => match self.matches_filter(doc, inner) {
                Ok(b) => Ok(!b),
                Err(e) => Err(e),
            },
        }
    }

    /// Sort, then skip, then limit, then projection.
    fn apply_post_processing(&self, documents: Vec<Document>, query: &Query) -> (r: Vec<Document>)
        requires
            query.projection matches Some(p) ==> p.wf(),
        ensures
            exists|s: Seq<Document>|
                sorted_version(documents@, s, query.sort) && projected(r@, window(s, query.skip, query.limit), query.projection),
    {
        let mut documents = documents;
        let ghost orig = documents@;
        match &query.sort {
            Some(sort) => {
                apply_sort(&mut documents, sort);
            },
            None => {},
        }
        let ghost sorted = documents@;
        assert(sorted_version(orig, sorted, query.sort));
        let documents = apply_window(documents, query.skip, query.limit);
        assert(documents@ == window(sorted, query.skip, query.limit));
        let out = match &query.projection {
            Some(p) => apply_projection(documents, p),
            None => documents,
        };
        assert(projected(out@, window(sorted, query.skip, query.limit), query.projection));
        out
    }
}

impl Default for QueryExecutor {
    fn default() -> (r: QueryExecutor)
        ensures
            r.planner.index_selector.available_indexes@.len() == 0,
    {
        QueryExecutor::new()
    }
}

/// Skips and limits.
fn apply_window(documents: Vec<Document>, skip: Option<u64>, limit: Option<u64>) -> (r: Vec<Document>)
    ensures
        r@ == window(documents@, skip, limit),
{
    let ghost orig = documents@;
    let mut documents = documents;
    match skip {
        Some(k) => {
            if k > 0 {
                if k >= documents.len() as u64 {
                    documents = Vec::new();
                } else {
                    let rest = documents.split_off(k as usize);
                    documents = rest;
                }
            }
        },
        None => {},
    }
    proof {
        match skip {
            Some(k) => {
                if k == 0 {
                    assert(orig.subrange(0, orig.len() as int) =~= orig);
                }
                if k >= orig.len() {
                    assert(documents@ =~= Seq::<Document>::empty());
                }
            },
            None => {},
        }
    }
    match limit {
        Some(l) => {
            if l < documents.len() as u64 {
                documents.truncate(l as usize);
            }
        },
        None => {},
    }
    documents
}

/// Whether `b` occurs in `bytes`.
fn has_byte(bytes: &[u8], b: u8) -> (r: bool)
    ensures
        r == bytes@.contains(b),
{
    let mut i: usize = 0;
    while i < bytes.len()
        invariant
            i <= bytes.len(),
            forall|j: int| 0 <= j < i ==> bytes@[j] != b,
        decreases bytes.len() - i,
    {
        if bytes[i] == b {
            assert(bytes@[i as int] == b);
            return true;
        }
        i = i + 1;
    }
    false
}

fn int_order_exec(a: i64, b: i64) -> (r: Order)
    ensures
        r == int_order(a as int, b as int),
{
    if a < b {
        Order::Less
    } else if a > b {
        Order::Greater
    } else {
        Order::Equal
    }
}

/// Compares two values in the order of [`value_order`].
pub fn compare_values(a: &Value, b: &Value) -> (r: Order)
    ensures
        r == value_order(*a, *b),
{
    match (a, b) {
        (Value::Null, Value::Null) => Order::Equal,
        (Value::Null, _) => Order::Less,
        (_, Value::Null) => Order::Greater,
        (Value::Bool(x), Value::Bool(y)) => int_order_exec(if *x { 1 } else { 0 }, if *y { 1 } else { 0 }),
        (Value::Int32(x), Value::Int32(y)) => int_order_exec(*x as i64, *y as i64),
        (Value::Int64(x), Value::Int64(y)) => int_order_exec(*x, *y),
        (Value::Int32(x), Value::Int64(y)) => int_order_exec(*x as i64, *y),
        (Value::Int64(x), Value::Int32(y)) => int_order_exec(*x, *y as i64),
        (Value::String(x), Value::String(y)) => str_order(x.as_str(), y.as_str()),
        (Value::DateTime(x), Value::DateTime(y)) => int_order_exec(*x, *y),
        (Value::ObjectId(x), Value::ObjectId(y)) => bytes_order(x.as_slice(), y.as_slice()),
        _ => Order::Equal,
    }
}

/// Compares two documents under the sort keys.
#[verifier::loop_isolation(false)]
pub fn compare_documents(a: &Document, b: &Document, sort: &Sort) -> (r: Order)
    ensures
        r == docs_order(a.fields@, b.fields@, sort.fields@),
{
    reveal(docs_order);
    let mut i: usize = 0;
    assert(sort.fields@.skip(0) =~= sort.fields@);
    while i < sort.fields.len()
        invariant
            i <= sort.fields.len(),
            docs_order(a.fields@, b.fields@, sort.fields@) == docs_order(a.fields@, b.fields@, sort.fields@.skip(i as int)),
        decreases sort.fields.len() - i,
    {
        assert(sort.fields@.skip(i as int).drop_first() =~= sort.fields@.skip(i + 1));
        let field = sort.fields[i].0.as_str();
        let c0 = match (a.get_by_path(field), b.get_by_path(field)) {
            (Some(x), Some(y)) => compare_values(x, y),
            (Some(_), None) => Order::Greater,
            (None, Some(_)) => Order::Less,
            (None, None) => Order::Equal,
        };
        let c = match sort.fields[i].1 {
            SortOrder::Ascending => c0,
            SortOrder::Descending => c0.reverse(),
        };
        if c != Order::Equal {
            return c;
        }
        i = i + 1;
    }
    Order::Equal
}

proof fn lemma_move_one(out0: Seq<Document>, before: Seq<Document>, p: int)
    requires
        0 <= p <= out0.len(),
        before.len() > 0,
    ensures
        out0.insert(p, before[0]).to_multiset().add(before.remove(0).to_multiset())
            == out0.to_multiset().add(before.to_multiset()),
{
    broadcast use vstd::multiset::group_multiset_axioms;
    let x = before[0];
    vstd::seq_lib::to_multiset_insert(out0, p, x);
    vstd::seq_lib::to_multiset_remove(before, 0);
    vstd::seq_lib::to_multiset_contains(before, x);
    assert(before.contains(x)) by {
        assert(before[0] == x);
    }
    assert(out0.insert(p, before[0]).to_multiset().add(before.remove(0).to_multiset())
        =~= out0.to_multiset().add(before.to_multiset()));
}

proof fn lemma_insert_keeps_sorted(o0: Seq<Document>, x: Document, p: int, keys: Seq<(String, SortOrder)>)
    requires
        0 <= p <= o0.len(),
        sorted_by_keys(o0, keys),
        p > 0 ==> docs_order(o0[p - 1].fields@, x.fields@, keys) != Order::Greater,
        p < o0.len() ==> docs_order(o0[p].fields@, x.fields@, keys) == Order::Greater,
    ensures
        sorted_by_keys(o0.insert(p, x), keys),
{
    if p < o0.len() {
        lemma_docs_order_flip(o0[p].fields@, x.fields@, keys);
    }
    let o1 = o0.insert(p, x);
    assert forall|i: int| 0 <= i < o1.len() - 1 implies #[trigger] docs_order(
        o1[i].fields@,
        o1[i + 1].fields@,
        keys,
    ) != Order::Greater by {
        if i < p - 1 {
            assert(o1[i] == o0[i] && o1[i + 1] == o0[i + 1]);
            assert(docs_order(o0[i].fields@, o0[i + 1].fields@, keys) != Order::Greater);
        } else if i == p - 1 {
            assert(o1[i] == o0[p - 1] && o1[i + 1] == x);
        } else if i == p {
            assert(o1[i] == x && o1[i + 1] == o0[p]);
        } else {
            let j = i - 1;
            assert(o1[i] == o0[j] && o1[i + 1] == o0[j + 1]);
            assert(docs_order(o0[j].fields@, o0[j + 1].fields@, keys) != Order::Greater);
        }
    }
}

proof fn lemma_multiset_empty_add(s: Seq<Document>)
    ensures
        Seq::<Document>::empty().to_multiset().add(s.to_multiset()) == s.to_multiset(),
        s.to_multiset().add(Seq::<Document>::empty().to_multiset()) == s.to_multiset(),
{
    broadcast use vstd::seq_lib::to_multiset_len, vstd::multiset::group_multiset_axioms, vstd::seq_lib::group_to_multiset_ensures;
    assert(Seq::<Document>::empty().to_multiset() =~= Multiset::empty());
    assert(Seq::<Document>::empty().to_multiset().add(s.to_multiset()) =~= s.to_multiset());
    assert(s.to_multiset().add(Seq::<Document>::empty().to_multiset()) =~= s.to_multiset());
}

/// Sorts the documents (stably) by the sort keys.
pub fn apply_sort(documents: &mut Vec<Document>, sort: &Sort)
    ensures
        final(documents)@.to_multiset() == old(documents)@.to_multiset(),
        sorted_by_keys(final(documents)@, sort.fields@),
{
    let ghost orig = documents@;
    let mut out: Vec<Document> = Vec::new();
    proof {
        lemma_multiset_empty_add(orig);
    }
    while documents.len() > 0
        invariant
            out@.to_multiset().add(documents@.to_multiset()) == orig.to_multiset(),
            sorted_by_keys(out@, sort.fields@),
        decreases documents.len(),
    {
        let ghost before = documents@;
        let x = documents.remove(0);
        let mut p: usize = out.len();
        while p > 0 && compare_documents(&out[p - 1], &x, sort) == Order::Greater
            invariant
                p <= out.len(),
                p < out.len() ==> docs_order(out@[p as int].fields@, x.fields@, sort.fields@) == Order::Greater,
            decreases p,
        {
            p = p - 1;
        }
        let ghost o0 = out@;
        proof {
            lemma_move_one(o0, before, p as int);
            lemma_insert_keeps_sorted(o0, x, p as int, sort.fields@);
        }
        out.insert(p, x);
        proof {
            assert(before.remove(0) =~= documents@);
        }
    }
    proof {
        assert(documents@ =~= Seq::<Document>::empty());
        lemma_multiset_empty_add(out@);
    }
    *documents = out;
}

/// Applies the projection to every document, keeping each one's identifier.
pub fn apply_projection(documents: Vec<Document>, projection: &Projection) -> (r: Vec<Document>)
    requires
        projection.wf(),
    ensures
        projected(r@, documents@, Some(*projection)),
{
    let ghost orig = documents@;
    let mut docs = documents;
    let mut result: Vec<Document> = Vec::new();
    while docs.len() > 0
        invariant
            result@.len() + docs@.len() == orig.len(),
            docs@ == orig.subrange(result@.len() as int, orig.len() as int),
            forall|i: int|
                0 <= i < result@.len() ==> (#[trigger] result@[i]).id == orig[i].id && result@[i].fields@
                    == project_fields(orig[i].fields@, projection.fields@),
        decreases docs.len(),
    {
        let ghost k = result@.len();
        let doc = docs.remove(0);
        assert(doc == orig[k as int]);
        let mut fields = doc.fields;
        let ghost fs = fields@;
        let mut kept: Vec<(String, Value)> = Vec::new();
        while fields.len() > 0
            invariant
                kept@ == project_fields(fs.subrange(0, fs.len() - fields@.len()), projection.fields@),
                fields@ == fs.subrange(fs.len() - fields@.len(), fs.len() as int),
                fields@.len() <= fs.len(),
            decreases fields.len(),
        {
            let ghost done = fs.len() - fields@.len();
            let e = fields.remove(0);
            assert(e == fs[done]);
            assert(fs.subrange(0, done + 1).drop_last() =~= fs.subrange(0, done));
            assert(fs.subrange(0, done + 1).last() == e);
            if projection.should_include(e.0.as_str()) {
                kept.push(e);
            }
            assert(fields@ =~= fs.subrange(fs.len() - fields@.len(), fs.len() as int));
        }
        assert(fs.subrange(0, fs.len() as int) =~= fs);
        result.push(Document { id: doc.id, fields: kept });
        assert(docs@ =~= orig.subrange(result@.len() as int, orig.len() as int));
    }
    result
}

} // verus!

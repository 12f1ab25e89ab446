//! Turning MongoDB-style JSON queries into the query syntax tree.
//!
//! The input is a [`JsonValue`]: JSON as plain values. Objects list their
//! entries in the order of the JSON map they come from, which orders keys
//! as strings and holds each key once.
use vstd::prelude::*;
use vstd::utf8::encode_utf8;
use crate::document::{Value, ValueModel, model_of, model_seq, model_entries, lemma_model_seq, lemma_model_entries};
use crate::query::ast::{Filter, FilterModel, Projection, ProjectionType, Query, Sort, SortOrder, model_filter, model_filters, lemma_model_filters, names_sorted};
use crate::sorted_map::{get_field, map_get, keys_sorted};
use crate::util::str_eq;
use crate::document::get_path;
use crate::query::executor::{filter_matches, lemma_value_order_by_model, lemma_value_order_same_model};

verus! {

broadcast use vstd::std_specs::vec::axiom_vec_index_decreases;

/// A JSON number. Integers that fit in `i64` are `Int`; larger positive
/// integers are `UInt`; numbers with a fraction or an exponent are
/// `Fractional`, whose value this library does not represent.
#[derive(Debug, Clone, Copy, PartialEq, Eq, Structural)]
pub enum JsonNumber {
    Int(i64),
    UInt(u64),
    Fractional,
}

/// A JSON value.
#[derive(Debug)]
pub enum JsonValue {
    Null,
    Bool(bool),
    Number(JsonNumber),
    String(String),
    Array(Vec<JsonValue>),
    Object(Vec<(String, JsonValue)>),
}

/// The query parser.
pub struct QueryParser;

/// Query parsing errors.
#[derive(Debug)]
pub enum QueryParseError {
    InvalidJson(String),
    InvalidFormat(String),
    UnsupportedOperator(String),
    ValidationError(String),
}

/// The content of a [`QueryParseError`].
pub enum ParseErrorModel {
    InvalidJson(Seq<char>),
    InvalidFormat(Seq<char>),
    UnsupportedOperator(Seq<char>),
    ValidationError(Seq<char>),
}

impl QueryParseError {
    pub open spec fn model(self) -> ParseErrorModel {
        match self {
            QueryParseError::InvalidJson(s) => ParseErrorModel::InvalidJson(s@),
            QueryParseError::InvalidFormat(s) => ParseErrorModel::InvalidFormat(s@),
            QueryParseError::UnsupportedOperator(s) => ParseErrorModel::UnsupportedOperator(s@),
            QueryParseError::ValidationError(s) => ParseErrorModel::ValidationError(s@),
        }
    }
}

pub open spec fn format_err(msg: Seq<char>) -> ParseErrorModel {
    ParseErrorModel::InvalidFormat(msg)
}

// ---------------------------------------------------------------------
// Specifications
// ---------------------------------------------------------------------
/// `serde_json::Number::as_i64`.
pub open spec fn num_as_i64(n: JsonNumber) -> Option<i64> {
    match n {
        JsonNumber::Int(i) => Some(i),
        _ => None,
    }
}

/// `serde_json::Number::as_u64`.
pub open spec fn num_as_u64(n: JsonNumber) -> Option<u64> {
    match n {
        JsonNumber::Int(i) => if i >= 0 {
            Some(i as u64)
        } else {
            None
        },
        JsonNumber::UInt(u) => Some(u),
        JsonNumber::Fractional => None,
    }
}

/// The key starts with `$`.
pub open spec fn is_operator(key: Seq<char>) -> bool {
    encode_utf8(key).len() > 0 && encode_utf8(key)[0] == 36u8
}

/// A JSON value as a document value: integers become `Int32` when they fit
/// and `Int64` otherwise; other numbers are not supported.
pub open spec fn json_value_spec(j: JsonValue) -> Result<ValueModel, ParseErrorModel>
    decreases j,
{
    match j {
        JsonValue::Null => Ok(ValueModel::Null),
        JsonValue::Bool(b) => Ok(ValueModel::Bool(b)),
        JsonValue::Number(n) => match n {
            JsonNumber::Int(i) => if i32::MIN <= i <= i32::MAX {
                Ok(ValueModel::Int32(i as i32))
            } else {
                Ok(ValueModel::Int64(i))
            },
            _ => Err(format_err("Invalid number format"@)),
        },
        JsonValue::String(s) => Ok(ValueModel::Str(s@)),
        JsonValue::Array(a) => match json_values_spec(a@) {
            Ok(vs) => Ok(ValueModel::Array(vs)),
            Err(e) => Err(e),
        },
        JsonValue::Object(o) => match json_entries_spec(o@) {
            Ok(es) => Ok(ValueModel::Object(es)),
            Err(e) => Err(e),
        },
    }
}

pub open spec fn json_values_spec(s: Seq<JsonValue>) -> Result<Seq<ValueModel>, ParseErrorModel>
    decreases s,
{
    if s.len() == 0 {
        Ok(Seq::empty())
    } else {
        match json_value_spec(s[0]) {
            Err(e) => Err(e),
            Ok(v) => match json_values_spec(s.drop_first()) {
                Err(e) => Err(e),
                Ok(rest) => Ok(seq![v] + rest),
            },
        }
    }
}

pub open spec fn json_entries_spec(s: Seq<(String, JsonValue)>) -> Result<Seq<(Seq<char>, ValueModel)>, ParseErrorModel>
    decreases s,
{
    if s.len() == 0 {
        Ok(Seq::empty())
    } else {
        match json_value_spec(s[0].1) {
            Err(e) => Err(e),
            Ok(v) => match json_entries_spec(s.drop_first()) {
                Err(e) => Err(e),
                Ok(rest) => Ok(seq![(s[0].0@, v)] + rest),
            },
        }
    }
}

/// One operator condition `{op: val}` on `field`.
pub open spec fn op_condition_spec(field: Seq<char>, op: Seq<char>, val: JsonValue, all: Seq<(String, JsonValue)>) -> Result<FilterModel, ParseErrorModel> {
    if op == "$eq"@ {
        match json_value_spec(val) { Ok(v) => Ok(FilterModel::Eq(field, v)), Err(e) => Err(e) }
    } else if op == "$ne"@ {
        match json_value_spec(val) { Ok(v) => Ok(FilterModel::Ne(field, v)), Err(e) => Err(e) }
    } else if op == "$gt"@ {
        match json_value_spec(val) { Ok(v) => Ok(FilterModel::Gt(field, v)), Err(e) => Err(e) }
    } else if op == "$gte"@ {
        match json_value_spec(val) { Ok(v) => Ok(FilterModel::Gte(field, v)), Err(e) => Err(e) }
    } else if op == "$lt"@ {
        match json_value_spec(val) { Ok(v) => Ok(FilterModel::Lt(field, v)), Err(e) => Err(e) }
    } else if op == "$lte"@ {
        match json_value_spec(val) { Ok(v) => Ok(FilterModel::Lte(field, v)), Err(e) => Err(e) }
    } else if op == "$in"@ {
        match val {
            JsonValue::Array(a) => match json_values_spec(a@) {
                Ok(vs) => Ok(FilterModel::In(field, vs)),
                Err(e) => Err(e),
            },
            _ => Err(format_err("$in must be an array"@)),
        }
    } else if op == "$nin"@ {
        match val {
            JsonValue::Array(a) => match json_values_spec(a@) {
                Ok(vs) => Ok(FilterModel::Nin(field, vs)),
                Err(e) => Err(e),
            },
            _ => Err(format_err("$nin must be an array"@)),
        }
    } else if op == "$exists"@ {
        match val {
            JsonValue::Bool(b) => Ok(FilterModel::Exists(field, b)),
            _ => Err(format_err("$exists must be a boolean"@)),
        }
    } else if op == "$regex"@ {
        match val {
            JsonValue::String(p) => Ok(
                FilterModel::Regex(
                    field,
                    p@,
                    match get_field(all, "$options"@) {
                        Some(JsonValue::String(o)) => Some(o@),
                        _ => None,
                    },
                ),
            ),
            _ => Err(format_err("$regex must be a string"@)),
        }
    } else {
        Err(ParseErrorModel::UnsupportedOperator(op))
    }
}

/// Whether the operator `op` of the operator object `all` only qualifies
/// another one: `$options` beside `$regex`.
pub open spec fn is_modifier(op: Seq<char>, all: Seq<(String, JsonValue)>) -> bool {
    op == "$options"@ && get_field(all, "$regex"@) is Some
}

/// A parsed `$ne` condition on `field` matches exactly the documents that
/// do not hold the condition's value in that field (those without the field
/// included).
pub proof fn lemma_parsed_ne(field: Seq<char>, val: JsonValue, all: Seq<(String, JsonValue)>, f: Filter, fs: Seq<(String, Value)>)
    requires
        op_condition_spec(field, "$ne"@, val, all) == Ok::<FilterModel, ParseErrorModel>(model_filter(f)),
    ensures
        json_value_spec(val) matches Ok(v)
            && filter_matches(fs, f) == Ok::<bool, Seq<char>>(!(get_path(fs, field) matches Some(x) && model_of(x) == v)),
{
    reveal_strlit("$eq");
    reveal_strlit("$ne");
    assert("$ne"@[1] != "$eq"@[1]);
    let v = json_value_spec(val)->Ok_0;
    assert(model_filter(f) == FilterModel::Ne(field, v));
    match f {
        Filter::Ne { field: g, value: w } => {
            assert(g@ == field && model_of(w) == v);
        },
        _ => {},
    }
}

/// A parsed `$eq` condition on `field` matches exactly the documents that
/// hold the condition's value in that field.
pub proof fn lemma_parsed_eq(field: Seq<char>, val: JsonValue, all: Seq<(String, JsonValue)>, f: Filter, fs: Seq<(String, Value)>)
    requires
        op_condition_spec(field, "$eq"@, val, all) == Ok::<FilterModel, ParseErrorModel>(model_filter(f)),
    ensures
        json_value_spec(val) matches Ok(v)
            && filter_matches(fs, f) == Ok::<bool, Seq<char>>(get_path(fs, field) matches Some(x) && model_of(x) == v),
{
    reveal_strlit("$eq");
}

/// Parsed `$eq` and `$ne` conditions on the same field and value are each
/// other's negation on every document.
pub proof fn lemma_parsed_eq_ne_opposite(field: Seq<char>, val: JsonValue, all: Seq<(String, JsonValue)>, fe: Filter, fne: Filter, fs: Seq<(String, Value)>)
    requires
        op_condition_spec(field, "$eq"@, val, all) == Ok::<FilterModel, ParseErrorModel>(model_filter(fe)),
        op_condition_spec(field, "$ne"@, val, all) == Ok::<FilterModel, ParseErrorModel>(model_filter(fne)),
    ensures
        filter_matches(fs, fe) matches Ok(a) && filter_matches(fs, fne) matches Ok(b) && a == !b,
{
    lemma_parsed_eq(field, val, all, fe, fs);
    lemma_parsed_ne(field, val, all, fne, fs);
}

proof fn lemma_op_names_differ()
    ensures
        "$lt"@ != "$eq"@, "$lt"@ != "$ne"@, "$lt"@ != "$gt"@, "$lt"@ != "$gte"@,
        "$lte"@ != "$eq"@, "$lte"@ != "$ne"@, "$lte"@ != "$gt"@, "$lte"@ != "$gte"@, "$lte"@ != "$lt"@,
        "$gt"@ != "$eq"@, "$gt"@ != "$ne"@,
        "$gte"@ != "$eq"@, "$gte"@ != "$ne"@, "$gte"@ != "$gt"@,
{
    reveal_strlit("$eq");
    reveal_strlit("$ne");
    reveal_strlit("$gt");
    reveal_strlit("$gte");
    reveal_strlit("$lt");
    reveal_strlit("$lte");
    assert("$lt"@[1] != "$eq"@[1]);
    assert("$lt"@[1] != "$ne"@[1]);
    assert("$lt"@[1] != "$gt"@[1]);
    assert("$lt"@.len() != "$gte"@.len());
    assert("$lte"@[1] != "$eq"@[1]);
    assert("$lte"@[1] != "$ne"@[1]);
    assert("$lte"@.len() != "$gt"@.len());
    assert("$lte"@[1] != "$gte"@[1]);
    assert("$lte"@.len() != "$lt"@.len());
    assert("$gt"@[1] != "$eq"@[1]);
    assert("$gt"@[1] != "$ne"@[1]);
    assert("$gte"@[1] != "$eq"@[1]);
    assert("$gte"@[1] != "$ne"@[1]);
    assert("$gte"@.len() != "$gt"@.len());
}

/// Parsed `$lt` and `$gte` conditions on the same field and value are each
/// other's negation on every document that holds the field, and so are
/// parsed `$gt` and `$lte`; a document whose field holds the condition's
/// value matches `$lte` and `$gte` and neither `$lt` nor `$gt`.
pub proof fn lemma_parsed_order_ops(
    field: Seq<char>,
    val: JsonValue,
    all: Seq<(String, JsonValue)>,
    f_lt: Filter,
    f_gte: Filter,
    f_gt: Filter,
    f_lte: Filter,
    fs: Seq<(String, Value)>,
)
    requires
        op_condition_spec(field, "$lt"@, val, all) == Ok::<FilterModel, ParseErrorModel>(model_filter(f_lt)),
        op_condition_spec(field, "$gte"@, val, all) == Ok::<FilterModel, ParseErrorModel>(model_filter(f_gte)),
        op_condition_spec(field, "$gt"@, val, all) == Ok::<FilterModel, ParseErrorModel>(model_filter(f_gt)),
        op_condition_spec(field, "$lte"@, val, all) == Ok::<FilterModel, ParseErrorModel>(model_filter(f_lte)),
    ensures
        filter_matches(fs, f_lt) matches Ok(lt),
        filter_matches(fs, f_gte) matches Ok(gte),
        filter_matches(fs, f_gt) matches Ok(gt),
        filter_matches(fs, f_lte) matches Ok(lte),
        get_path(fs, field) is Some ==> (filter_matches(fs, f_lt) == Ok::<bool, Seq<char>>(!filter_matches(fs, f_gte)->Ok_0)
            && filter_matches(fs, f_gt) == Ok::<bool, Seq<char>>(!filter_matches(fs, f_lte)->Ok_0)),
        (get_path(fs, field) matches Some(x) && json_value_spec(val) == Ok::<ValueModel, ParseErrorModel>(model_of(x))) ==> {
            &&& filter_matches(fs, f_lt) == Ok::<bool, Seq<char>>(false)
            &&& filter_matches(fs, f_gt) == Ok::<bool, Seq<char>>(false)
            &&& filter_matches(fs, f_lte) == Ok::<bool, Seq<char>>(true)
            &&& filter_matches(fs, f_gte) == Ok::<bool, Seq<char>>(true)
        },
{
    lemma_op_names_differ();
    let v = json_value_spec(val)->Ok_0;
    assert(model_filter(f_lt) == FilterModel::Lt(field, v));
    assert(model_filter(f_gte) == FilterModel::Gte(field, v));
    assert(model_filter(f_gt) == FilterModel::Gt(field, v));
    assert(model_filter(f_lte) == FilterModel::Lte(field, v));
    match (f_lt, f_gte, f_gt, f_lte) {
        (Filter::Lt { field: a, value: wa }, Filter::Gte { field: b, value: wb },
         Filter::Gt { field: c, value: wc }, Filter::Lte { field: d, value: wd }) => {
            assert(a@ == field && b@ == field && c@ == field && d@ == field);
            match get_path(fs, field) {
                Some(x) => {
                    lemma_value_order_by_model(x, wa, wb);
                    lemma_value_order_by_model(x, wc, wd);
                    if json_value_spec(val) == Ok::<ValueModel, ParseErrorModel>(model_of(x)) {
                        lemma_value_order_same_model(x, wa);
                        lemma_value_order_same_model(x, wb);
                        lemma_value_order_same_model(x, wc);
                        lemma_value_order_same_model(x, wd);
                    }
                },
                None => {},
            }
        },
        _ => {},
    }
}

/// The conditions of an operator object, in order, leaving out the
/// operators that only qualify another; the first error wins.
pub open spec fn op_conditions_spec(field: Seq<char>, s: Seq<(String, JsonValue)>, all: Seq<(String, JsonValue)>) -> Result<Seq<FilterModel>, ParseErrorModel>
    decreases s.len(),
{
    if s.len() == 0 {
        Ok(Seq::empty())
    } else {
        match op_conditions_spec(field, s.drop_last(), all) {
            Err(e) => Err(e),
            Ok(fs) => if is_modifier(s.last().0@, all) {
                Ok(fs)
            } else {
                match op_condition_spec(field, s.last().0@, s.last().1, all) {
                    Err(e) => Err(e),
                    Ok(f) => Ok(fs.push(f)),
                }
            },
        }
    }
}

/// One filter or, for several, their conjunction.
pub open spec fn combine(fs: Seq<FilterModel>) -> FilterModel {
    if fs.len() == 1 {
        fs[0]
    } else {
        FilterModel::And(fs)
    }
}

/// The condition `field: value`.
pub open spec fn field_condition_spec(field: Seq<char>, j: JsonValue) -> Result<FilterModel, ParseErrorModel> {
    match j {
        JsonValue::Object(o) => if o@.len() == 0 {
            Ok(FilterModel::Eq(field, ValueModel::Object(Seq::empty())))
        } else {
            match op_conditions_spec(field, o@, o@) {
                Ok(fs) => Ok(combine(fs)),
                Err(e) => Err(e),
            }
        },
        _ => match json_value_spec(j) {
            Ok(v) => Ok(FilterModel::Eq(field, v)),
            Err(e) => Err(e),
        },
    }
}

/// The filter that a JSON value denotes.
pub open spec fn filter_spec(j: JsonValue) -> Result<FilterModel, ParseErrorModel>
    decreases j,
{
    match j {
        JsonValue::Object(o) => if o@.len() == 0 {
            Ok(FilterModel::Empty)
        } else {
            filter_entries_spec(o@, Seq::empty())
        },
        _ => Err(format_err("Filter must be an object"@)),
    }
}

/// Processes the entries of a filter object in order. Each entry, a field
/// condition or a logical operator, gives one condition; they accumulate in
/// `acc` and are combined (all of them must hold) at the end.
pub open spec fn filter_entries_spec(s: Seq<(String, JsonValue)>, acc: Seq<FilterModel>) -> Result<FilterModel, ParseErrorModel>
    decreases s,
{
    if s.len() == 0 {
        Ok(combine(acc))
    } else {
        let key = s[0].0@;
        let val = s[0].1;
        if is_operator(key) {
            if key == "$and"@ {
                match val {
                    JsonValue::Array(a) => match filter_list_spec(a@) {
                        Ok(fs) => filter_entries_spec(s.drop_first(), acc.push(FilterModel::And(fs))),
                        Err(e) => Err(e),
                    },
                    _ => Err(format_err("$and must be an array"@)),
                }
            } else if key == "$or"@ {
                match val {
                    JsonValue::Array(a) => match filter_list_spec(a@) {
                        Ok(fs) => filter_entries_spec(s.drop_first(), acc.push(FilterModel::Or(fs))),
                        Err(e) => Err(e),
                    },
                    _ => Err(format_err("$or must be an array"@)),
                }
            } else if key == "$not"@ {
                match filter_spec(val) {
                    Ok(f) => filter_entries_spec(s.drop_first(), acc.push(FilterModel::Not(Box::new(f)))),
                    Err(e) => Err(e),
                }
            } else {
                Err(ParseErrorModel::UnsupportedOperator(key))
            }
        } else {
            match field_condition_spec(key, val) {
                Ok(f) => filter_entries_spec(s.drop_first(), acc.push(f)),
                Err(e) => Err(e),
            }
        }
    }
}

pub open spec fn filter_list_spec(s: Seq<JsonValue>) -> Result<Seq<FilterModel>, ParseErrorModel>
    decreases s,
{
    if s.len() == 0 {
        Ok(Seq::empty())
    } else {
        match filter_spec(s[0]) {
            Err(e) => Err(e),
            Ok(f) => match filter_list_spec(s.drop_first()) {
                Err(e) => Err(e),
                Ok(rest) => Ok(seq![f] + rest),
            },
        }
    }
}

/// The projection entries, in order.
pub open spec fn projection_spec(s: Seq<(String, JsonValue)>) -> Result<Seq<(Seq<char>, ProjectionType)>, ParseErrorModel>
    decreases s.len(),
{
    if s.len() == 0 {
        Ok(Seq::empty())
    } else {
        match projection_spec(s.drop_last()) {
            Err(e) => Err(e),
            Ok(ps) => {
                let inc: Result<bool, ParseErrorModel> = match s.last().1 {
                    JsonValue::Number(n) => match num_as_i64(n) {
                        Some(i) => if i == 0 {
                            Ok(false)
                        } else if i == 1 {
                            Ok(true)
                        } else {
                            Err(format_err("Projection value must be 0 or 1"@))
                        },
                        None => Err(format_err("Projection value must be 0 or 1"@)),
                    },
                    JsonValue::Bool(b) => Ok(b),
                    _ => Err(format_err("Projection value must be 0, 1, true, or false"@)),
                };
                match inc {
                    Err(e) => Err(e),
                    Ok(b) => Ok(
                        ps.push(
                            (
                                s.last().0@,
                                if b {
                                    ProjectionType::Include
                                } else {
                                    ProjectionType::Exclude
                                },
                            ),
                        ),
                    ),
                }
            },
        }
    }
}

/// The sort keys, in order.
pub open spec fn sort_spec(s: Seq<(String, JsonValue)>) -> Result<Seq<(Seq<char>, SortOrder)>, ParseErrorModel>
    decreases s.len(),
{
    if s.len() == 0 {
        Ok(Seq::empty())
    } else {
        match sort_spec(s.drop_last()) {
            Err(e) => Err(e),
            Ok(ks) => {
                let o: Result<SortOrder, ParseErrorModel> = match s.last().1 {
                    JsonValue::Number(n) => match num_as_i64(n) {
                        Some(i) => if i == 1 {
                            Ok(SortOrder::Ascending)
                        } else if i == -1 {
                            Ok(SortOrder::Descending)
                        } else {
                            Err(format_err("Sort value must be 1 or -1"@))
                        },
                        None => Err(format_err("Sort value must be 1 or -1"@)),
                    },
                    JsonValue::String(t) => if t@ == "asc"@ || t@ == "ascending"@ {
                        Ok(SortOrder::Ascending)
                    } else if t@ == "desc"@ || t@ == "descending"@ {
                        Ok(SortOrder::Descending)
                    } else {
                        Err(format_err("Sort value must be 'asc' or 'desc'"@))
                    },
                    _ => Err(format_err("Sort value must be 1, -1, 'asc', or 'desc'"@)),
                };
                match o {
                    Err(e) => Err(e),
                    Ok(d) => Ok(ks.push((s.last().0@, d))),
                }
            },
        }
    }
}

/// The value of the last entry with key `k`.
pub open spec fn assoc_last<V>(s: Seq<(Seq<char>, V)>, k: Seq<char>) -> Option<V>
    decreases s.len(),
{
    if s.len() == 0 {
        None
    } else if s.last().0 == k {
        Some(s.last().1)
    } else {
        assoc_last(s.drop_last(), k)
    }
}

/// A projection holds exactly the given entries (later ones winning).
pub open spec fn projection_is(p: Projection, ps: Seq<(Seq<char>, ProjectionType)>) -> bool {
    p.wf() && forall|k: Seq<char>| #[trigger] get_field(p.fields@, k) == assoc_last(ps, k)
}

/// A sort holds exactly the given keys, in order.
pub open spec fn sort_is(so: Sort, ks: Seq<(Seq<char>, SortOrder)>) -> bool {
    so.fields@.len() == ks.len() && forall|i: int|
        0 <= i < ks.len() ==> (#[trigger] so.fields@[i]).0@ == ks[i].0 && so.fields@[i].1 == ks[i].1
}

/// `skip` / `limit`: a non-negative integer.
pub open spec fn count_spec(j: JsonValue, msg: Seq<char>) -> Result<u64, ParseErrorModel> {
    match j {
        JsonValue::Number(n) => match num_as_u64(n) {
            Some(u) => Ok(u),
            None => Err(format_err(msg)),
        },
        _ => Err(format_err(msg)),
    }
}

/// The error that parsing a query reports, if any, trying in order the
/// top-level shape, the filter, the projection, the sort, skip and limit.
pub open spec fn query_error(j: JsonValue) -> Option<ParseErrorModel> {
    match j {
        JsonValue::Object(o) => {
            let f = match get_field(o@, "filter"@) {
                Some(fv) => match filter_spec(fv) { Err(e) => Some(e), Ok(_) => None },
                None => None,
            };
            let p = match get_field(o@, "projection"@) {
                Some(JsonValue::Object(po)) => match projection_spec(po@) { Err(e) => Some(e), Ok(_) => None },
                Some(_) => Some(format_err("Projection must be an object"@)),
                None => None,
            };
            let s = match get_field(o@, "sort"@) {
                Some(JsonValue::Object(so)) => match sort_spec(so@) { Err(e) => Some(e), Ok(_) => None },
                Some(_) => Some(format_err("Sort must be an object"@)),
                None => None,
            };
            let k = match get_field(o@, "skip"@) {
                Some(v) => match count_spec(v, "skip must be a number"@) { Err(e) => Some(e), Ok(_) => None },
                None => None,
            };
            let l = match get_field(o@, "limit"@) {
                Some(v) => match count_spec(v, "limit must be a number"@) { Err(e) => Some(e), Ok(_) => None },
                None => None,
            };
            if f is Some { f } else if p is Some { p } else if s is Some { s } else if k is Some { k } else { l }
        },
        _ => Some(format_err("Query must be an object"@)),
    }
}

/// The parsed query matches the JSON: each part present in the object is
/// parsed from it, each absent part is left empty.
pub open spec fn query_matches(j: JsonValue, q: Query) -> bool {
    j matches JsonValue::Object(o) && {
        &&& match get_field(o@, "filter"@) {
            Some(fv) => filter_spec(fv) == Ok::<FilterModel, ParseErrorModel>(model_filter(q.filter)),
            None => q.filter is Empty,
        }
        &&& match get_field(o@, "projection"@) {
            Some(JsonValue::Object(po)) => q.projection matches Some(p) && projection_spec(po@) matches Ok(ps) && projection_is(p, ps),
            _ => q.projection is None,
        }
        &&& match get_field(o@, "sort"@) {
            Some(JsonValue::Object(so)) => q.sort matches Some(s) && sort_spec(so@) matches Ok(ks) && sort_is(s, ks),
            _ => q.sort is None,
        }
        &&& match get_field(o@, "skip"@) {
            Some(v) => count_spec(v, "skip must be a number"@) == Ok::<u64, ParseErrorModel>(q.skip.unwrap()) && q.skip is Some,
            None => q.skip is None,
        }
        &&& match get_field(o@, "limit"@) {
            Some(v) => count_spec(v, "limit must be a number"@) == Ok::<u64, ParseErrorModel>(q.limit.unwrap()) && q.limit is Some,
            None => q.limit is None,
        }
    }
}

proof fn lemma_op_conditions_err(field: Seq<char>, s: Seq<(String, JsonValue)>, all: Seq<(String, JsonValue)>, k: int, e: ParseErrorModel)
    requires
        0 <= k <= s.len(),
        op_conditions_spec(field, s.subrange(0, k), all) == Err::<Seq<FilterModel>, ParseErrorModel>(e),
    ensures
        op_conditions_spec(field, s, all) == Err::<Seq<FilterModel>, ParseErrorModel>(e),
    decreases s.len(),
{
    if k == s.len() {
        assert(s.subrange(0, k) =~= s);
    } else {
        assert(s.drop_last().subrange(0, k) =~= s.subrange(0, k));
        lemma_op_conditions_err(field, s.drop_last(), all, k, e);
    }
}

proof fn lemma_projection_err(s: Seq<(String, JsonValue)>, k: int, e: ParseErrorModel)
    requires
        0 <= k <= s.len(),
        projection_spec(s.subrange(0, k)) == Err::<Seq<(Seq<char>, ProjectionType)>, ParseErrorModel>(e),
    ensures
        projection_spec(s) == Err::<Seq<(Seq<char>, ProjectionType)>, ParseErrorModel>(e),
    decreases s.len(),
{
    if k == s.len() {
        assert(s.subrange(0, k) =~= s);
    } else {
        assert(s.drop_last().subrange(0, k) =~= s.subrange(0, k));
        lemma_projection_err(s.drop_last(), k, e);
    }
}

proof fn lemma_sort_err(s: Seq<(String, JsonValue)>, k: int, e: ParseErrorModel)
    requires
        0 <= k <= s.len(),
        sort_spec(s.subrange(0, k)) == Err::<Seq<(Seq<char>, SortOrder)>, ParseErrorModel>(e),
    ensures
        sort_spec(s) == Err::<Seq<(Seq<char>, SortOrder)>, ParseErrorModel>(e),
    decreases s.len(),
{
    if k == s.len() {
        assert(s.subrange(0, k) =~= s);
    } else {
        assert(s.drop_last().subrange(0, k) =~= s.subrange(0, k));
        lemma_sort_err(s.drop_last(), k, e);
    }
}

/// The check that [`QueryParser::validate`] fails, if any.
pub open spec fn validate_error(q: Query) -> Option<ParseErrorModel> {
    if q.skip matches Some(k) && k > 1_000_000 {
        Some(ParseErrorModel::ValidationError("Skip value too large (max: 1,000,000)"@))
    } else if q.limit matches Some(l) && l > 100_000 {
        Some(ParseErrorModel::ValidationError("Limit value too large (max: 100,000)"@))
    } else if q.projection matches Some(p) && mixes_projection(p.fields@) {
        Some(ParseErrorModel::ValidationError("Cannot mix inclusion and exclusion in projection (except _id)"@))
    } else {
        None
    }
}

/// A projection excludes a field other than `_id` and includes a field other
/// than `_id`.
pub open spec fn mixes_projection(fs: Seq<(String, ProjectionType)>) -> bool {
    (exists|i: int| 0 <= i < fs.len() && (#[trigger] fs[i]).1 == ProjectionType::Exclude && fs[i].0@ != "_id"@)
        && (exists|i: int| 0 <= i < fs.len() && (#[trigger] fs[i]).1 == ProjectionType::Include && fs[i].0@ != "_id"@)
}

// ---------------------------------------------------------------------
// Helpers
// ---------------------------------------------------------------------
fn format_error(msg: &str) -> (r: QueryParseError)
    ensures
        r.model() == format_err(msg@),
{
    QueryParseError::InvalidFormat(msg.to_owned())
}

/// Whether the key starts with `$`.
fn starts_with_dollar(key: &str) -> (r: bool)
    ensures
        r == is_operator(key@),
{
    let b = key.as_bytes();
    b.len() > 0 && b[0] == 36u8
}

fn as_i64(n: JsonNumber) -> (r: Option<i64>)
    ensures
        r == num_as_i64(n),
{
    match n {
        JsonNumber::Int(i) => Some(i),
        _ => None,
    }
}

fn as_u64(n: JsonNumber) -> (r: Option<u64>)
    ensures
        r == num_as_u64(n),
{
    match n {
        JsonNumber::Int(i) => if i >= 0 {
            Some(i as u64)
        } else {
            None
        },
        JsonNumber::UInt(u) => Some(u),
        JsonNumber::Fractional => None,
    }
}

impl QueryParser {
    /// Converts a JSON value to a document value.
    #[verifier::loop_isolation(false)]
    pub fn json_to_value(json: &JsonValue) -> (r: Result<Value, QueryParseError>)
        ensures
            match r {
                Ok(v) => json_value_spec(*json) == Ok::<ValueModel, ParseErrorModel>(model_of(v)),
                Err(e) => json_value_spec(*json) == Err::<ValueModel, ParseErrorModel>(e.model()),
            },
        decreases json,
    {
        match json {
            JsonValue::Null => Ok(Value::Null),
            JsonValue::Bool(b) => Ok(Value::Bool(*b)),
            JsonValue::Number(n) => match n {
                JsonNumber::Int(i) => {
                    if *i >= -2147483648i64 && *i <= 2147483647i64 {
                        Ok(Value::Int32(*i as i32))
                    } else {
                        Ok(Value::Int64(*i))
                    }
                },
                _ => Err(format_error("Invalid number format")),
            },
            JsonValue::String(s) => Ok(Value::String(s.clone())),
            JsonValue::Array(arr) => {
                let mut out: Vec<Value> = Vec::new();
                let mut i: usize = 0;
                assert(arr@.skip(0) =~= arr@);
                while i < arr.len()
                    invariant
                        i <= arr.len(),
                        json_values_spec(arr@) == match json_values_spec(arr@.skip(i as int)) {
                            Ok(rest) => Ok(model_seq(out@) + rest),
                            Err(e) => Err(e),
                        },
                    decreases arr.len() - i,
                {
                    assert(arr@.skip(i as int).drop_first() =~= arr@.skip(i + 1));
                    let v = match QueryParser::json_to_value(&arr[i]) {
                        Ok(v) => v,
                        Err(e) => return Err(e),
                    };
                    let ghost before = out@;
                    out.push(v);
                    proof {
                        lemma_model_seq(before);
                        lemma_model_seq(out@);
                        assert(model_seq(out@) =~= model_seq(before) + seq![model_of(v)]);
                        match json_values_spec(arr@.skip(i + 1)) {
                            Ok(rest) => {
                                assert(model_seq(before) + (seq![model_of(v)] + rest) =~= model_seq(out@) + rest);
                            },
                            Err(_) => {},
                        }
                    }
                    i = i + 1;
                }
                proof {
                    assert(arr@.skip(i as int) =~= Seq::<JsonValue>::empty());
                    assert(model_seq(out@) + Seq::<ValueModel>::empty() =~= model_seq(out@));
                }
                Ok(Value::Array(out))
            },
            JsonValue::Object(obj) => {
                let mut out: Vec<(String, Value)> = Vec::new();
                let mut i: usize = 0;
                assert(obj@.skip(0) =~= obj@);
                while i < obj.len()
                    invariant
                        i <= obj.len(),
                        json_entries_spec(obj@) == match json_entries_spec(obj@.skip(i as int)) {
                            Ok(rest) => Ok(model_entries(out@) + rest),
                            Err(e) => Err(e),
                        },
                    decreases obj.len() - i,
                {
                    assert(obj@.skip(i as int).drop_first() =~= obj@.skip(i + 1));
                    let v = match QueryParser::json_to_value(&obj[i].1) {
                        Ok(v) => v,
                        Err(e) => return Err(e),
                    };
                    let k = obj[i].0.clone();
                    let ghost before = out@;
                    out.push((k, v));
                    proof {
                        lemma_model_entries(before);
                        lemma_model_entries(out@);
                        assert(model_entries(out@) =~= model_entries(before) + seq![(obj@[i as int].0@, model_of(v))]);
                        match json_entries_spec(obj@.skip(i + 1)) {
                            Ok(rest) => {
                                assert(model_entries(before) + (seq![(obj@[i as int].0@, model_of(v))] + rest) =~= model_entries(out@) + rest);
                            },
                            Err(_) => {},
                        }
                    }
                    i = i + 1;
                }
                proof {
                    assert(obj@.skip(i as int) =~= Seq::<(String, JsonValue)>::empty());
                    assert(model_entries(out@) + Seq::<(Seq<char>, ValueModel)>::empty() =~= model_entries(out@));
                }
                Ok(Value::Object(out))
            },
        }
    }

    /// Converts each element of a JSON array.
    fn json_to_values(arr: &Vec<JsonValue>) -> (r: Result<Vec<Value>, QueryParseError>)
        ensures
            match r {
                Ok(vs) => json_values_spec(arr@) == Ok::<Seq<ValueModel>, ParseErrorModel>(model_seq(vs@)),
                Err(e) => json_values_spec(arr@) == Err::<Seq<ValueModel>, ParseErrorModel>(e.model()),
            },
    {
        let mut out: Vec<Value> = Vec::new();
        let mut i: usize = 0;
        assert(arr@.skip(0) =~= arr@);
        while i < arr.len()
            invariant
                i <= arr.len(),
                json_values_spec(arr@) == match json_values_spec(arr@.skip(i as int)) {
                    Ok(rest) => Ok(model_seq(out@) + rest),
                    Err(e) => Err(e),
                },
            decreases arr.len() - i,
        {
            assert(arr@.skip(i as int).drop_first() =~= arr@.skip(i + 1));
            let v = match QueryParser::json_to_value(&arr[i]) {
                Ok(v) => v,
                Err(e) => return Err(e),
            };
            let ghost before = out@;
            out.push(v);
            proof {
                lemma_model_seq(before);
                lemma_model_seq(out@);
                assert(model_seq(out@) =~= model_seq(before) + seq![model_of(v)]);
                match json_values_spec(arr@.skip(i + 1)) {
                    Ok(rest) => {
                        assert(model_seq(before) + (seq![model_of(v)] + rest) =~= model_seq(out@) + rest);
                    },
                    Err(_) => {},
                }
            }
            i = i + 1;
        }
        proof {
            assert(arr@.skip(i as int) =~= Seq::<JsonValue>::empty());
            assert(model_seq(out@) + Seq::<ValueModel>::empty() =~= model_seq(out@));
        }
        Ok(out)
    }

    /// Parses one operator condition on `field`.
    fn parse_op(field: &str, op: &str, val: &JsonValue, all: &Vec<(String, JsonValue)>) -> (r: Result<Filter, QueryParseError>)
        ensures
            match r {
                Ok(f) => op_condition_spec(field@, op@, *val, all@) == Ok::<FilterModel, ParseErrorModel>(model_filter(f)),
                Err(e) => op_condition_spec(field@, op@, *val, all@) == Err::<FilterModel, ParseErrorModel>(e.model()),
            },
    {
        if str_eq(op, "$eq") || str_eq(op, "$ne") || str_eq(op, "$gt") || str_eq(op, "$gte")
            || str_eq(op, "$lt") || str_eq(op, "$lte") {
            let v = match QueryParser::json_to_value(val) {
                Ok(v) => v,
                Err(e) => return Err(e),
            };
            let f = field.to_owned();
            if str_eq(op, "$eq") {
                Ok(Filter::Eq { field: f, value: v })
            } else if str_eq(op, "$ne") {
                Ok(Filter::Ne { field: f, value: v })
            } else if str_eq(op, "$gt") {
                Ok(Filter::Gt { field: f, value: v })
            } else if str_eq(op, "$gte") {
                Ok(Filter::Gte { field: f, value: v })
            } else if str_eq(op, "$lt") {
                Ok(Filter::Lt { field: f, value: v })
            } else {
                Ok(Filter::Lte { field: f, value: v })
            }
        } else if str_eq(op, "$in") || str_eq(op, "$nin") {
            let is_in = str_eq(op, "$in");
            match val {
                JsonValue::Array(arr) => {
                    let values = match QueryParser::json_to_values(arr) {
                        Ok(vs) => vs,
                        Err(e) => return Err(e),
                    };
                    if is_in {
                        Ok(Filter::In { field: field.to_owned(), values })
                    } else {
                        Ok(Filter::Nin { field: field.to_owned(), values })
                    }
                },
                _ => {
                    if is_in {
                        Err(format_error("$in must be an array"))
                    } else {
                        Err(format_error("$nin must be an array"))
                    }
                },
            }
        } else if str_eq(op, "$exists") {
            match val {
                JsonValue::Bool(b) => Ok(Filter::Exists { field: field.to_owned(), exists: *b }),
                _ => Err(format_error("$exists must be a boolean")),
            }
        } else if str_eq(op, "$regex") {
            match val {
                JsonValue::String(p) => {
                    let options = match map_get(all, "$options") {
                        Some(JsonValue::String(o)) => Some(o.clone()),
                        _ => None,
                    };
                    Ok(Filter::Regex { field: field.to_owned(), pattern: p.clone(), options })
                },
                _ => Err(format_error("$regex must be a string")),
            }
        } else {
            Err(QueryParseError::UnsupportedOperator(op.to_owned()))
        }
    }

    /// Parses the condition `field: value`.
    #[verifier::loop_isolation(false)]
    fn parse_field_condition(field: &str, value: &JsonValue) -> (r: Result<Filter, QueryParseError>)
        ensures
            match r {
                Ok(f) => field_condition_spec(field@, *value) == Ok::<FilterModel, ParseErrorModel>(model_filter(f)),
                Err(e) => field_condition_spec(field@, *value) == Err::<FilterModel, ParseErrorModel>(e.model()),
            },
    {
        match value {
            JsonValue::Object(obj) => {
                if obj.len() == 0 {
                    let v = match QueryParser::json_to_value(value) {
                        Ok(v) => v,
                        Err(e) => return Err(e),
                    };
                    proof {
                        assert(obj@ =~= Seq::<(String, JsonValue)>::empty());
                    }
                    return Ok(Filter::Eq { field: field.to_owned(), value: v });
                }
                let mut filters: Vec<Filter> = Vec::new();
                let mut i: usize = 0;
                while i < obj.len()
                    invariant
                        i <= obj.len(),
                        op_conditions_spec(field@, obj@.subrange(0, i as int), obj@) == Ok::<Seq<FilterModel>, ParseErrorModel>(model_filters(filters@)),
                    decreases obj.len() - i,
                {
                    proof {
                        assert(obj@.subrange(0, i + 1).drop_last() =~= obj@.subrange(0, i as int));
                    }
                    let op = obj[i].0.as_str();
                    if str_eq(op, "$options") && map_get(obj, "$regex").is_some() {
                        i = i + 1;
                        continue;
                    }
                    let f = match QueryParser::parse_op(field, op, &obj[i].1, obj) {
                        Ok(f) => f,
                        Err(e) => {
                            proof {
                                lemma_op_conditions_err(field@, obj@, obj@, i + 1, e.model());
                            }
                            return Err(e);
                        },
                    };
                    let ghost before = filters@;
                    filters.push(f);
                    proof {
                        lemma_model_filters(before);
                        lemma_model_filters(filters@);
                        assert(model_filters(filters@) =~= model_filters(before).push(model_filter(f)));
                    }
                    i = i + 1;
                }
                proof {
                    assert(obj@.subrange(0, obj@.len() as int) =~= obj@);
                    lemma_model_filters(filters@);
                }
                Ok(QueryParser::combine_filters(filters))
            },
            _ => {
                let v = match QueryParser::json_to_value(value) {
                    Ok(v) => v,
                    Err(e) => return Err(e),
                };
                Ok(Filter::Eq { field: field.to_owned(), value: v })
            },
        }
    }

    /// One filter stays as it is; otherwise the conjunction.
    fn combine_filters(filters: Vec<Filter>) -> (r: Filter)
        ensures
            model_filter(r) == combine(model_filters(filters@)),
    {
        proof {
            lemma_model_filters(filters@);
        }
        if filters.len() == 1 {
            let mut filters = filters;
            let f = filters.pop().unwrap();
            f
        } else {
            Filter::And(filters)
        }
    }

    /// Parses a filter object.
    #[verifier::loop_isolation(false)]
    pub fn parse_filter(value: &JsonValue) -> (r: Result<Filter, QueryParseError>)
        ensures
            match r {
                Ok(f) => filter_spec(*value) == Ok::<FilterModel, ParseErrorModel>(model_filter(f)),
                Err(e) => filter_spec(*value) == Err::<FilterModel, ParseErrorModel>(e.model()),
            },
        decreases value,
    {
        match value {
            JsonValue::Object(obj) => {
                if obj.len() == 0 {
                    return Ok(Filter::Empty);
                }
                let mut filters: Vec<Filter> = Vec::new();
                let mut i: usize = 0;
                assert(obj@.skip(0) =~= obj@);
                while i < obj.len()
                    invariant
                        i <= obj.len(),
                        filter_entries_spec(obj@, Seq::empty()) == filter_entries_spec(
                            obj@.skip(i as int),
                            model_filters(filters@),
                        ),
                    decreases obj.len() - i,
                {
                    assert(obj@.skip(i as int).drop_first() =~= obj@.skip(i + 1));
                    assert(obj@.skip(i as int)[0] == obj@[i as int]);
                    let key = obj[i].0.as_str();
                    let val = &obj[i].1;
                    if starts_with_dollar(key) {
                        if str_eq(key, "$and") || str_eq(key, "$or") {
                            let is_and = str_eq(key, "$and");
                            match val {
                                JsonValue::Array(arr) => {
                                    let subs = match QueryParser::parse_filter_list(arr) {
                                        Ok(fs) => fs,
                                        Err(e) => return Err(e),
                                    };
                                    let f = if is_and { Filter::And(subs) } else { Filter::Or(subs) };
                                    let ghost before = filters@;
                                    filters.push(f);
                                    proof {
                                        lemma_model_filters(before);
                                        lemma_model_filters(filters@);
                                        assert(model_filters(filters@) =~= model_filters(before).push(model_filter(f)));
                                    }
                                },
                                _ => {
                                    if is_and {
                                        return Err(format_error("$and must be an array"));
                                    } else {
                                        return Err(format_error("$or must be an array"));
                                    }
                                },
                            }
                        } else if str_eq(key, "$not") {
                            let sub = match QueryParser::parse_filter(val) {
                                Ok(f) => f,
                                Err(e) => return Err(e),
                            };
                            let f = Filter::Not(Box::new(sub));
                            let ghost before = filters@;
                            filters.push(f);
                            proof {
                                lemma_model_filters(before);
                                lemma_model_filters(filters@);
                                assert(model_filters(filters@) =~= model_filters(before).push(model_filter(f)));
                            }
                        } else {
                            return Err(QueryParseError::UnsupportedOperator(key.to_owned()));
                        }
                    } else {
                        let f = match QueryParser::parse_field_condition(key, val) {
                            Ok(f) => f,
                            Err(e) => return Err(e),
                        };
                        let ghost before = filters@;
                        filters.push(f);
                        proof {
                            lemma_model_filters(before);
                            lemma_model_filters(filters@);
                            assert(model_filters(filters@) =~= model_filters(before).push(model_filter(f)));
                        }
                    }
                    i = i + 1;
                }
                proof {
                    assert(obj@.skip(i as int) =~= Seq::<(String, JsonValue)>::empty());
                }
                Ok(QueryParser::combine_filters(filters))
            },
            _ => Err(format_error("Filter must be an object")),
        }
    }

    /// Parses each element of a JSON array as a filter.
    #[verifier::loop_isolation(false)]
    fn parse_filter_list(arr: &Vec<JsonValue>) -> (r: Result<Vec<Filter>, QueryParseError>)
        ensures
            match r {
                Ok(fs) => filter_list_spec(arr@) == Ok::<Seq<FilterModel>, ParseErrorModel>(model_filters(fs@)),
                Err(e) => filter_list_spec(arr@) == Err::<Seq<FilterModel>, ParseErrorModel>(e.model()),
            },
        decreases arr, 0nat,
    {
        let mut out: Vec<Filter> = Vec::new();
        let mut i: usize = 0;
        assert(arr@.skip(0) =~= arr@);
        while i < arr.len()
            invariant
                i <= arr.len(),
                filter_list_spec(arr@) == match filter_list_spec(arr@.skip(i as int)) {
                    Ok(rest) => Ok(model_filters(out@) + rest),
                    Err(e) => Err(e),
                },
            decreases arr.len() - i,
        {
            assert(arr@.skip(i as int).drop_first() =~= arr@.skip(i + 1));
            let f = match QueryParser::parse_filter(&arr[i]) {
                Ok(f) => f,
                Err(e) => return Err(e),
            };
            let ghost before = out@;
            out.push(f);
            proof {
                lemma_model_filters(before);
                lemma_model_filters(out@);
                assert(model_filters(out@) =~= model_filters(before) + seq![model_filter(f)]);
                match filter_list_spec(arr@.skip(i + 1)) {
                    Ok(rest) => {
                        assert(model_filters(before) + (seq![model_filter(f)] + rest) =~= model_filters(out@) + rest);
                    },
                    Err(_) => {},
                }
            }
            i = i + 1;
        }
        proof {
            assert(arr@.skip(i as int) =~= Seq::<JsonValue>::empty());
            assert(model_filters(out@) + Seq::<FilterModel>::empty() =~= model_filters(out@));
        }
        Ok(out)
    }

    /// Parses a projection object: `1`/`true` includes a field, `0`/`false`
    /// excludes it.
    #[verifier::loop_isolation(false)]
    pub fn parse_projection(value: &JsonValue) -> (r: Result<Projection, QueryParseError>)
        ensures
            match *value {
                JsonValue::Object(po) => match projection_spec(po@) {
                    Ok(ps) => r matches Ok(p) && projection_is(p, ps),
                    Err(e) => r matches Err(x) && x.model() == e,
                },
                _ => r matches Err(x) && x.model() == format_err("Projection must be an object"@),
            },
    {
        let obj = match value {
            JsonValue::Object(o) => o,
            _ => return Err(format_error("Projection must be an object")),
        };
        let mut projection = Projection::new();
        let mut i: usize = 0;
        proof {
            assert(obj@.subrange(0, 0) =~= Seq::<(String, JsonValue)>::empty());
        }
        while i < obj.len()
            invariant
                i <= obj.len(),
                projection_spec(obj@.subrange(0, i as int)) matches Ok(ps) && projection_is(projection, ps),
            decreases obj.len() - i,
        {
            proof {
                assert(obj@.subrange(0, i + 1).drop_last() =~= obj@.subrange(0, i as int));
                assert(obj@.subrange(0, i + 1).last() == obj@[i as int]);
            }
            let ghost ps = projection_spec(obj@.subrange(0, i as int))->Ok_0;
            let field = obj[i].0.as_str();
            let keep: bool = match &obj[i].1 {
                JsonValue::Number(n) => match as_i64(*n) {
                    Some(num) => {
                        if num == 0 {
                            false
                        } else if num == 1 {
                            true
                        } else {
                            let e = format_error("Projection value must be 0 or 1");
                            proof { lemma_projection_err(obj@, i + 1, e.model()); }
                            return Err(e);
                        }
                    },
                    None => {
                        let e = format_error("Projection value must be 0 or 1");
                        proof { lemma_projection_err(obj@, i + 1, e.model()); }
                        return Err(e);
                    },
                },
                JsonValue::Bool(b) => *b,
                _ => {
                    let e = format_error("Projection value must be 0, 1, true, or false");
                    proof { lemma_projection_err(obj@, i + 1, e.model()); }
                    return Err(e);
                },
            };
            let ghost t = if keep { ProjectionType::Include } else { ProjectionType::Exclude };
            if keep {
                projection = projection.include_field(field);
            } else {
                projection = projection.exclude(field);
            }
            proof {
                let ps2 = ps.push((field@, t));
                assert forall|k: Seq<char>| #[trigger] get_field(projection.fields@, k) == assoc_last(ps2, k) by {
                    assert(ps2.drop_last() =~= ps);
                }
            }
            i = i + 1;
        }
        proof {
            assert(obj@.subrange(0, obj@.len() as int) =~= obj@);
        }
        Ok(projection)
    }

    /// Parses a sort object: `1`, `"asc"` or `"ascending"` sorts up,
    /// `-1`, `"desc"` or `"descending"` sorts down.
    #[verifier::loop_isolation(false)]
    pub fn parse_sort(value: &JsonValue) -> (r: Result<Sort, QueryParseError>)
        ensures
            match *value {
                JsonValue::Object(so) => match sort_spec(so@) {
                    Ok(ks) => r matches Ok(s) && sort_is(s, ks),
                    Err(e) => r matches Err(x) && x.model() == e,
                },
                _ => r matches Err(x) && x.model() == format_err("Sort must be an object"@),
            },
    {
        let obj = match value {
            JsonValue::Object(o) => o,
            _ => return Err(format_error("Sort must be an object")),
        };
        let mut sort = Sort::new();
        let mut i: usize = 0;
        proof {
            assert(obj@.subrange(0, 0) =~= Seq::<(String, JsonValue)>::empty());
        }
        while i < obj.len()
            invariant
                i <= obj.len(),
                sort_spec(obj@.subrange(0, i as int)) matches Ok(ks) && sort_is(sort, ks),
            decreases obj.len() - i,
        {
            proof {
                assert(obj@.subrange(0, i + 1).drop_last() =~= obj@.subrange(0, i as int));
                assert(obj@.subrange(0, i + 1).last() == obj@[i as int]);
            }
            let field = obj[i].0.as_str();
            let order: SortOrder = match &obj[i].1 {
                JsonValue::Number(n) => match as_i64(*n) {
                    Some(num) => {
                        if num == 1 {
                            SortOrder::Ascending
                        } else if num == -1 {
                            SortOrder::Descending
                        } else {
                            let e = format_error("Sort value must be 1 or -1");
                            proof { lemma_sort_err(obj@, i + 1, e.model()); }
                            return Err(e);
                        }
                    },
                    None => {
                        let e = format_error("Sort value must be 1 or -1");
                        proof { lemma_sort_err(obj@, i + 1, e.model()); }
                        return Err(e);
                    },
                },
                JsonValue::String(t) => {
                    if str_eq(t.as_str(), "asc") || str_eq(t.as_str(), "ascending") {
                        SortOrder::Ascending
                    } else if str_eq(t.as_str(), "desc") || str_eq(t.as_str(), "descending") {
                        SortOrder::Descending
                    } else {
                        let e = format_error("Sort value must be 'asc' or 'desc'");
                        proof { lemma_sort_err(obj@, i + 1, e.model()); }
                        return Err(e);
                    }
                },
                _ => {
                    let e = format_error("Sort value must be 1, -1, 'asc', or 'desc'");
                    proof { lemma_sort_err(obj@, i + 1, e.model()); }
                    return Err(e);
                },
            };
            let ghost old_fields = sort.fields@;
            let ghost ks = sort_spec(obj@.subrange(0, i as int))->Ok_0;
            sort = sort.add(field, order);
            proof {
                let ks2 = ks.push((field@, order));
                assert forall|j: int| 0 <= j < ks2.len() implies (#[trigger] sort.fields@[j]).0@ == ks2[j].0 && sort.fields@[j].1 == ks2[j].1 by {
                    if j < ks.len() {
                        assert(sort.fields@.subrange(0, old_fields.len() as int)[j] == old_fields[j]);
                    }
                }
            }
            i = i + 1;
        }
        proof {
            assert(obj@.subrange(0, obj@.len() as int) =~= obj@);
        }
        Ok(sort)
    }

    /// `skip` or `limit`: a non-negative integer.
    fn parse_count(v: &JsonValue, msg: &str) -> (r: Result<u64, QueryParseError>)
        ensures
            match r {
                Ok(u) => count_spec(*v, msg@) == Ok::<u64, ParseErrorModel>(u),
                Err(e) => count_spec(*v, msg@) == Err::<u64, ParseErrorModel>(e.model()),
            },
    {
        match v {
            JsonValue::Number(n) => match as_u64(*n) {
                Some(u) => Ok(u),
                None => Err(format_error(msg)),
            },
            _ => Err(format_error(msg)),
        }
    }

    /// Parses a query object with optional `filter`, `projection`, `sort`,
    /// `skip` and `limit` members.
    pub fn parse_from_value(value: &JsonValue) -> (r: Result<Query, QueryParseError>)
        ensures
            match r {
                Ok(q) => query_error(*value) is None && query_matches(*value, q),
                Err(e) => query_error(*value) == Some(e.model()),
            },
    {
        let obj = match value {
            JsonValue::Object(o) => o,
            _ => return Err(format_error("Query must be an object")),
        };
        let mut query = Query::new();
        match map_get(obj, "filter") {
            Some(fv) => match QueryParser::parse_filter(fv) {
                Ok(f) => {
                    query.filter = f;
                },
                Err(e) => return Err(e),
            },
            None => {},
        }
        match map_get(obj, "projection") {
            Some(pv) => match QueryParser::parse_projection(pv) {
                Ok(p) => {
                    query.projection = Some(p);
                },
                Err(e) => return Err(e),
            },
            None => {},
        }
        match map_get(obj, "sort") {
            Some(sv) => match QueryParser::parse_sort(sv) {
                Ok(so) => {
                    query.sort = Some(so);
                },
                Err(e) => return Err(e),
            },
            None => {},
        }
        match map_get(obj, "skip") {
            Some(v) => match QueryParser::parse_count(v, "skip must be a number") {
                Ok(u) => {
                    query.skip = Some(u);
                },
                Err(e) => return Err(e),
            },
            None => {},
        }
        match map_get(obj, "limit") {
            Some(v) => match QueryParser::parse_count(v, "limit must be a number") {
                Ok(u) => {
                    query.limit = Some(u);
                },
                Err(e) => return Err(e),
            },
            None => {},
        }
        Ok(query)
    }

    /// Checks the limits on skip and limit and that a projection does not
    /// mix inclusion and exclusion (apart from `_id`).
    pub fn validate(query: &Query) -> (r: Result<(), QueryParseError>)
        ensures
            match r {
                Ok(_) => validate_error(*query) is None,
                Err(e) => validate_error(*query) == Some(e.model()),
            },
    {
        match query.skip {
            Some(skip) => {
                if skip > 1_000_000 {
                    return Err(QueryParseError::ValidationError("Skip value too large (max: 1,000,000)".to_owned()));
                }
            },
            None => {},
        }
        match query.limit {
            Some(limit) => {
                if limit > 100_000 {
                    return Err(QueryParseError::ValidationError("Limit value too large (max: 100,000)".to_owned()));
                }
            },
            None => {},
        }
        match &query.projection {
            Some(projection) => {
                if projection.is_inclusion() && projection.is_exclusion() {
                    let mut has_non_id_inclusion = false;
                    let mut has_non_id_exclusion = false;
                    let mut i: usize = 0;
                    while i < projection.fields.len()
                        invariant
                            i <= projection.fields.len(),
                            has_non_id_inclusion == exists|j: int| 0 <= j < i && (#[trigger] projection.fields@[j]).1 == ProjectionType::Include && projection.fields@[j].0@ != "_id"@,
                            has_non_id_exclusion == exists|j: int| 0 <= j < i && (#[trigger] projection.fields@[j]).1 == ProjectionType::Exclude && projection.fields@[j].0@ != "_id"@,
                        decreases projection.fields.len() - i,
                    {
                        let not_id = !str_eq(projection.fields[i].0.as_str(), "_id");
                        if projection.fields[i].1 == ProjectionType::Include && not_id {
                            has_non_id_inclusion = true;
                        }
                        if projection.fields[i].1 == ProjectionType::Exclude && not_id {
                            has_non_id_exclusion = true;
                        }
                        i = i + 1;
                    }
                    if has_non_id_inclusion && has_non_id_exclusion {
                        return Err(QueryParseError::ValidationError("Cannot mix inclusion and exclusion in projection (except _id)".to_owned()));
                    }
                }
            },
            None => {},
        }
        Ok(())
    }
}

} // verus!

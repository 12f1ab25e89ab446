//! Query syntax: filters, projections, sort specifications and the query
//! that combines them (MongoDB-style).
use vstd::prelude::*;
use crate::document::{Value, ValueModel, model_of, model_seq};
use crate::sorted_map::{keys_sorted, get_field, map_insert, map_get};
use crate::util::{Order, str_order_spec, str_order, str_eq, lemma_str_order_equal, lemma_str_order_flip, lemma_str_order_trans};

verus! {

broadcast use vstd::std_specs::vec::axiom_vec_index_decreases;

/// A query: filter, projection, sort, skip and limit.
#[derive(Debug)]
pub struct Query {
    pub filter: Filter,
    pub projection: Option<Projection>,
    pub sort: Option<Sort>,
    pub skip: Option<u64>,
    pub limit: Option<u64>,
}

/// Filter conditions.
#[derive(Debug)]
pub enum Filter {
    /// Matches every document.
    Empty,
    Eq { field: String, value: Value },
    Ne { field: String, value: Value },
    Gt { field: String, value: Value },
    Gte { field: String, value: Value },
    Lt { field: String, value: Value },
    Lte { field: String, value: Value },
    In { field: String, values: Vec<Value> },
    Nin { field: String, values: Vec<Value> },
    Exists { field: String, exists: bool },
    Regex { field: String, pattern: String, options: Option<String> },
    And(Vec<Filter>),
    Or(Vec<Filter>),
    Not(Box<Filter>),
}

/// Whether a projection keeps or drops a field.
#[derive(Debug, Clone, Copy, PartialEq, Eq, Structural)]
pub enum ProjectionType {
    Include,
    Exclude,
}

/// Fields to include or exclude, keyed by field name in sorted order.
#[derive(Debug)]
pub struct Projection {
    pub fields: Vec<(String, ProjectionType)>,
}

/// Direction of a sort key.
#[derive(Debug, Clone, Copy, PartialEq, Eq, Structural)]
pub enum SortOrder {
    Ascending,
    Descending,
}

/// Sort keys, most significant first.
#[derive(Debug)]
pub struct Sort {
    pub fields: Vec<(String, SortOrder)>,
}

// ---------------------------------------------------------------------
// Specifications
// ---------------------------------------------------------------------
/// The mathematical content of a [`Filter`].
pub enum FilterModel {
    Empty,
    Eq(Seq<char>, ValueModel),
    Ne(Seq<char>, ValueModel),
    Gt(Seq<char>, ValueModel),
    Gte(Seq<char>, ValueModel),
    Lt(Seq<char>, ValueModel),
    Lte(Seq<char>, ValueModel),
    In(Seq<char>, Seq<ValueModel>),
    Nin(Seq<char>, Seq<ValueModel>),
    Exists(Seq<char>, bool),
    Regex(Seq<char>, Seq<char>, Option<Seq<char>>),
    And(Seq<FilterModel>),
    Or(Seq<FilterModel>),
    Not(Box<FilterModel>),
}

pub open spec fn model_filter(f: Filter) -> FilterModel
    decreases f,
{
    match f {
        Filter::Empty => FilterModel::Empty,
        Filter::Eq { field, value } => FilterModel::Eq(field@, model_of(value)),
        Filter::Ne { field, value } => FilterModel::Ne(field@, model_of(value)),
        Filter::Gt { field, value } => FilterModel::Gt(field@, model_of(value)),
        Filter::Gte { field, value } => FilterModel::Gte(field@, model_of(value)),
        Filter::Lt { field, value } => FilterModel::Lt(field@, model_of(value)),
        Filter::Lte { field, value } => FilterModel::Lte(field@, model_of(value)),
        Filter::In { field, values } => FilterModel::In(field@, model_seq(values@)),
        Filter::Nin { field, values } => FilterModel::Nin(field@, model_seq(values@)),
        Filter::Exists { field, exists } => FilterModel::Exists(field@, exists),
        Filter::Regex { field, pattern, options } => FilterModel::Regex(
            field@,
            pattern@,
            match options {
                Some(o) => Some(o@),
                None => None,
            },
        ),
        Filter::And(fs) => FilterModel::And(model_filters(fs@)),
        Filter::Or(fs) => FilterModel::Or(model_filters(fs@)),
        Filter::Not(b) => FilterModel::Not(Box::new(model_filter(*b))),
    }
}

pub open spec fn model_filters(fs: Seq<Filter>) -> Seq<FilterModel>
    decreases fs,
{
    if fs.len() == 0 {
        Seq::empty()
    } else {
        seq![model_filter(fs[0])] + model_filters(fs.drop_first())
    }
}

/// The model of a list of filters has one model per filter, in order.
pub proof fn lemma_model_filters(fs: Seq<Filter>)
    ensures
        model_filters(fs).len() == fs.len(),
        forall|i: int| 0 <= i < fs.len() ==> #[trigger] model_filters(fs)[i] == model_filter(fs[i]),
    decreases fs.len(),
{
    if fs.len() > 0 {
        lemma_model_filters(fs.drop_first());
        assert forall|i: int| 0 <= i < fs.len() implies #[trigger] model_filters(fs)[i] == model_filter(fs[i]) by {
            if i > 0 {
                assert(fs.drop_first()[i - 1] == fs[i]);
            }
        }
    }
}

/// The field a single-field filter is about.
pub open spec fn single_field(f: Filter) -> Option<Seq<char>> {
    match f {
        Filter::Eq { field, .. } => Some(field@),
        Filter::Ne { field, .. } => Some(field@),
        Filter::Gt { field, .. } => Some(field@),
        Filter::Gte { field, .. } => Some(field@),
        Filter::Lt { field, .. } => Some(field@),
        Filter::Lte { field, .. } => Some(field@),
        Filter::In { field, .. } => Some(field@),
        Filter::Nin { field, .. } => Some(field@),
        Filter::Exists { field, .. } => Some(field@),
        Filter::Regex { field, .. } => Some(field@),
        _ => None,
    }
}

/// Every field name a filter mentions, in pre-order, with repetitions.
pub open spec fn filter_fields(f: Filter) -> Seq<Seq<char>>
    decreases f,
{
    match f {
        Filter::And(fs) => filters_fields(fs@),
        Filter::Or(fs) => filters_fields(fs@),
        Filter::Not(b) => filter_fields(*b),
        Filter::Empty => Seq::empty(),
        _ => seq![single_field(f).unwrap()],
    }
}

pub open spec fn filters_fields(fs: Seq<Filter>) -> Seq<Seq<char>>
    decreases fs,
{
    if fs.len() == 0 {
        Seq::empty()
    } else {
        filter_fields(fs[0]) + filters_fields(fs.drop_first())
    }
}

/// Whether a filter can be served by an index on `field`: a single-field
/// condition on it, a conjunction with some such branch, a disjunction all
/// of whose branches are, or the negation of one.
pub open spec fn filter_can_use_index(f: Filter, field: Seq<char>) -> bool
    decreases f,
{
    match f {
        Filter::Empty => false,
        Filter::And(fs) => any_can_use_index(fs@, field),
        Filter::Or(fs) => all_can_use_index(fs@, field),
        Filter::Not(b) => filter_can_use_index(*b, field),
        _ => single_field(f) == Some(field),
    }
}

pub open spec fn any_can_use_index(fs: Seq<Filter>, field: Seq<char>) -> bool
    decreases fs,
{
    if fs.len() == 0 {
        false
    } else {
        filter_can_use_index(fs[0], field) || any_can_use_index(fs.drop_first(), field)
    }
}

pub open spec fn all_can_use_index(fs: Seq<Filter>, field: Seq<char>) -> bool
    decreases fs,
{
    if fs.len() == 0 {
        true
    } else {
        filter_can_use_index(fs[0], field) && all_can_use_index(fs.drop_first(), field)
    }
}

/// The names in `v`, as character sequences.
pub open spec fn names(v: Seq<String>) -> Seq<Seq<char>> {
    v.map_values(|s: String| s@)
}

/// Strictly increasing in string order.
pub open spec fn names_sorted(v: Seq<String>) -> bool {
    forall|i: int, j: int|
        0 <= i < j < v.len() ==> str_order_spec(#[trigger] v[i]@, #[trigger] v[j]@) == Order::Less
}

/// The field names of a projection that it includes / excludes.
pub open spec fn has_type(fs: Seq<(String, ProjectionType)>, t: ProjectionType) -> bool {
    exists|i: int| 0 <= i < fs.len() && (#[trigger] fs[i]).1 == t
}

/// Whether a projection keeps the field `field`.
pub open spec fn projection_keeps(fs: Seq<(String, ProjectionType)>, field: Seq<char>) -> bool {
    if has_type(fs, ProjectionType::Include) {
        field == "_id"@ || get_field(fs, field) == Some(ProjectionType::Include)
    } else {
        get_field(fs, field) != Some(ProjectionType::Exclude)
    }
}

// ---------------------------------------------------------------------
// Helpers on sorted name lists
// ---------------------------------------------------------------------
/// Adds `s` to a strictly sorted list of names unless it is there already.
fn insert_name(v: &mut Vec<String>, s: String)
    requires
        names_sorted(old(v)@),
    ensures
        names_sorted(final(v)@),
        forall|t: Seq<char>|
            names(final(v)@).contains(t) <==> (names(old(v)@).contains(t) || t == s@),
{
    let ghost old_v = v@;
    let mut i: usize = 0;
    while i < v.len()
        invariant
            v@ == old_v,
            names_sorted(old_v),
            i <= old_v.len(),
            forall|j: int| 0 <= j < i ==> str_order_spec(#[trigger] old_v[j]@, s@) == Order::Less,
        ensures
            v@ == old_v,
            i <= old_v.len(),
            i < old_v.len() ==> str_order_spec(old_v[i as int]@, s@) != Order::Less,
            forall|j: int| 0 <= j < i ==> str_order_spec(#[trigger] old_v[j]@, s@) == Order::Less,
        decreases v.len() - i,
    {
        if str_order(v[i].as_str(), s.as_str()) != Order::Less {
            break;
        }
        i = i + 1;
    }
    let present = i < v.len() && str_eq(v[i].as_str(), s.as_str());
    if !present {
        v.insert(i, s);
    }
    proof {
        let nv = v@;
        if !present && i < old_v.len() {
            lemma_str_order_equal(old_v[i as int]@, s@);
            lemma_str_order_flip(old_v[i as int]@, s@);
        }
        if !present {
            assert forall|a: int, b: int| 0 <= a < b < nv.len() implies str_order_spec(
                #[trigger] nv[a]@,
                #[trigger] nv[b]@,
            ) == Order::Less by {
                if a == i && b > i + 1 {
                    lemma_str_order_trans(s@, old_v[i as int]@, old_v[b - 1]@);
                }
            }
        }
        assert forall|t: Seq<char>|
            names(nv).contains(t) <==> (names(old_v).contains(t) || t == s@) by {
            if names(nv).contains(t) {
                let k = choose|k: int| 0 <= k < names(nv).len() && names(nv)[k] == t;
                if !present && k != i {
                    let ok = if k < i { k } else { k - 1 };
                    assert(names(old_v)[ok] == t);
                } else if present {
                    assert(names(old_v)[k] == t);
                }
            }
            if names(old_v).contains(t) {
                let k = choose|k: int| 0 <= k < names(old_v).len() && names(old_v)[k] == t;
                let nk = if present || k < i { k } else { k + 1 };
                assert(names(nv)[nk] == t);
            }
            if t == s@ {
                assert(names(nv)[i as int] == t);
            }
        }
    }
}

// ---------------------------------------------------------------------
// Query
// ---------------------------------------------------------------------
impl Query {
    /// An empty query, which matches every document.
    pub fn new() -> (r: Query)
        ensures
            r.filter is Empty,
            r.projection is None,
            r.sort is None,
            r.skip is None,
            r.limit is None,
    {
        Query { filter: Filter::Empty, projection: None, sort: None, skip: None, limit: None }
    }

    /// A query with the given filter and nothing else.
    pub fn with_filter(filter: Filter) -> (r: Query)
        ensures
            r.filter == filter,
            r.projection is None,
            r.sort is None,
            r.skip is None,
            r.limit is None,
    {
        Query { filter, projection: None, sort: None, skip: None, limit: None }
    }

    /// Sets the projection.
    pub fn projection(self, projection: Projection) -> (r: Query)
        ensures
            r == (Query { projection: Some(projection), ..self }),
    {
        Query { projection: Some(projection), ..self }
    }

    /// Sets the sort specification.
    pub fn sort(self, sort: Sort) -> (r: Query)
        ensures
            r == (Query { sort: Some(sort), ..self }),
    {
        Query { sort: Some(sort), ..self }
    }

    /// Sets how many documents to skip.
    pub fn skip(self, skip: u64) -> (r: Query)
        ensures
            r == (Query { skip: Some(skip), ..self }),
    {
        Query { skip: Some(skip), ..self }
    }

    /// Sets the maximum number of documents to return.
    pub fn limit(self, limit: u64) -> (r: Query)
        ensures
            r == (Query { limit: Some(limit), ..self }),
    {
        Query { limit: Some(limit), ..self }
    }

    /// A single equality condition with a limit of one and nothing else.
    pub fn is_simple_key_lookup(&self) -> (r: bool)
        ensures
            r == (self.filter is Eq && self.projection is None && self.sort is None
                && self.skip is None && self.limit == Some(1u64)),
    {
        let is_eq = match &self.filter {
            Filter::Eq { .. } => true,
            _ => false,
        };
        is_eq && self.projection.is_none() && self.sort.is_none() && self.skip.is_none()
            && match self.limit {
            Some(l) => l == 1,
            None => false,
        }
    }

    /// The field of an equality filter.
    pub fn get_lookup_field(&self) -> (r: Option<&str>)
        ensures
            match self.filter {
                Filter::Eq { field, .. } => r matches Some(f) && f@ == field@,
                _ => r is None,
            },
    {
        match &self.filter {
            Filter::Eq { field, .. } => Some(field.as_str()),
            _ => None,
        }
    }
}

impl Default for Query {
    fn default() -> (r: Query)
        ensures
            r.filter is Empty,
            r.projection is None,
            r.sort is None,
            r.skip is None,
            r.limit is None,
    {
        Query::new()
    }
}

// ---------------------------------------------------------------------
// Filter
// ---------------------------------------------------------------------
impl Filter {
    /// `field == value`
    pub fn eq(field: &str, value: Value) -> (r: Filter)
        ensures
            r matches Filter::Eq { field: f, value: v } && f@ == field@ && v == value,
    {
        Filter::Eq { field: field.to_owned(), value }
    }

    /// `field != value`
    pub fn ne(field: &str, value: Value) -> (r: Filter)
        ensures
            r matches Filter::Ne { field: f, value: v } && f@ == field@ && v == value,
    {
        Filter::Ne { field: field.to_owned(), value }
    }

    /// `field > value`
    pub fn gt(field: &str, value: Value) -> (r: Filter)
        ensures
            r matches Filter::Gt { field: f, value: v } && f@ == field@ && v == value,
    {
        Filter::Gt { field: field.to_owned(), value }
    }

    /// `field >= value`
    pub fn gte(field: &str, value: Value) -> (r: Filter)
        ensures
            r matches Filter::Gte { field: f, value: v } && f@ == field@ && v == value,
    {
        Filter::Gte { field: field.to_owned(), value }
    }

    /// `field < value`
    pub fn lt(field: &str, value: Value) -> (r: Filter)
        ensures
            r matches Filter::Lt { field: f, value: v } && f@ == field@ && v == value,
    {
        Filter::Lt { field: field.to_owned(), value }
    }

    /// `field <= value`
    pub fn lte(field: &str, value: Value) -> (r: Filter)
        ensures
            r matches Filter::Lte { field: f, value: v } && f@ == field@ && v == value,
    {
        Filter::Lte { field: field.to_owned(), value }
    }

    /// `field` is one of `values`.
    pub fn in_values(field: &str, values: Vec<Value>) -> (r: Filter)
        ensures
            r matches Filter::In { field: f, values: vs } && f@ == field@ && vs == values,
    {
        Filter::In { field: field.to_owned(), values }
    }

    /// `field` is none of `values`.
    pub fn nin(field: &str, values: Vec<Value>) -> (r: Filter)
        ensures
            r matches Filter::Nin { field: f, values: vs } && f@ == field@ && vs == values,
    {
        Filter::Nin { field: field.to_owned(), values }
    }

    /// `field` is present (or absent, when `exists` is false).
    pub fn field_exists(field: &str, exists: bool) -> (r: Filter)
        ensures
            r matches Filter::Exists { field: f, exists: e } && f@ == field@ && e == exists,
    {
        Filter::Exists { field: field.to_owned(), exists }
    }

    /// `field` matches the regular expression `pattern`, without options.
    pub fn regex(field: &str, pattern: &str) -> (r: Filter)
        ensures
            r matches Filter::Regex { field: f, pattern: p, options: o } && f@ == field@ && p@
                == pattern@ && o is None,
    {
        Filter::Regex { field: field.to_owned(), pattern: pattern.to_owned(), options: None }
    }

    /// All of `filters`.
    pub fn and(filters: Vec<Filter>) -> (r: Filter)
        ensures
            r == Filter::And(filters),
    {
        Filter::And(filters)
    }

    /// Any of `filters`.
    pub fn or(filters: Vec<Filter>) -> (r: Filter)
        ensures
            r == Filter::Or(filters),
    {
        Filter::Or(filters)
    }

    /// The negation of `filter`.
    pub fn not(filter: Filter) -> (r: Filter)
        ensures
            r == Filter::Not(Box::new(filter)),
    {
        Filter::Not(Box::new(filter))
    }

    /// The distinct field names the filter mentions, in string order.
    pub fn get_fields(&self) -> (r: Vec<String>)
        ensures
            names_sorted(r@),
            forall|t: Seq<char>| names(r@).contains(t) <==> filter_fields(*self).contains(t),
    {
        let mut all: Vec<String> = Vec::new();
        self.collect_fields(&mut all);
        assert(names(all@) =~= filter_fields(*self));
        let mut out: Vec<String> = Vec::new();
        let mut i: usize = 0;
        while i < all.len()
            invariant
                i <= all.len(),
                names(all@) == filter_fields(*self),
                names_sorted(out@),
                forall|t: Seq<char>|
                    names(out@).contains(t) <==> names(all@).subrange(0, i as int).contains(t),
            decreases all.len() - i,
        {
            let s = all[i].clone();
            insert_name(&mut out, s);
            proof {
                let pre = names(all@).subrange(0, i as int);
                let post = names(all@).subrange(0, i + 1);
                assert(post =~= pre.push(all@[i as int]@));
                assert forall|t: Seq<char>| post.contains(t) <==> (pre.contains(t) || t == all@[i as int]@) by {
                    if post.contains(t) {
                        let k = choose|k: int| 0 <= k < post.len() && post[k] == t;
                        if k < i {
                            assert(pre[k] == t);
                        }
                    }
                    if pre.contains(t) {
                        let k = choose|k: int| 0 <= k < pre.len() && pre[k] == t;
                        assert(post[k] == t);
                    }
                    if t == all@[i as int]@ {
                        assert(post[i as int] == t);
                    }
                }
            }
            i = i + 1;
        }
        assert(names(all@).subrange(0, all@.len() as int) =~= names(all@));
        out
    }

    #[verifier::loop_isolation(false)]
    fn collect_fields(&self, fields: &mut Vec<String>)
        ensures
            names(final(fields)@) == names(old(fields)@) + filter_fields(*self),
        decreases self,
    {
        match self {
            Filter::Empty => {
                assert(names(fields@) =~= names(fields@) + filter_fields(*self));
            },
            Filter::Eq { field, .. }
            | Filter::Ne { field, .. }
            | Filter::Gt { field, .. }
            | Filter::Gte { field, .. }
            | Filter::Lt { field, .. }
            | Filter::Lte { field, .. }
            | Filter::In { field, .. }
            | Filter::Nin { field, .. }
            | Filter::Exists { field, .. }
            | Filter::Regex { field, .. } => {
                let ghost before = names(fields@);
                fields.push(field.clone());
                assert(names(fields@) =~= before + filter_fields(*self));
            },
            Filter::And(filters) | Filter::Or(filters) => {
                let ghost before = names(fields@);
                let mut i: usize = 0;
                assert(filters@.skip(0) =~= filters@);
                while i < filters.len()
                    invariant
                        i <= filters.len(),
                        names(fields@) + filters_fields(filters@.skip(i as int)) == before
                            + filters_fields(filters@),
                    decreases filters.len() - i,
                {
                    let ghost mid = names(fields@);
                    filters[i].collect_fields(fields);
                    proof {
                        assert(filters@.skip(i as int).drop_first() =~= filters@.skip(i + 1));
                        assert(filters_fields(filters@.skip(i as int)) == filter_fields(
                            filters@[i as int],
                        ) + filters_fields(filters@.skip(i + 1)));
                        assert(names(fields@) + filters_fields(filters@.skip(i + 1)) =~= mid
                            + filters_fields(filters@.skip(i as int)));
                    }
                    i = i + 1;
                }
                assert(filters@.skip(i as int) =~= Seq::<Filter>::empty());
                assert(names(fields@) =~= names(fields@) + filters_fields(filters@.skip(i as int)));
            },
            Filter::Not(inner) => {
                inner.collect_fields(fields);
            },
        }
    }

    /// Whether this is the empty filter.
    pub fn is_empty(&self) -> (r: bool)
        ensures
            r == (*self is Empty),
    {
        match self {
            Filter::Empty => true,
            _ => false,
        }
    }

    /// Whether an index on `field` can serve this filter.
    #[verifier::loop_isolation(false)]
    pub fn can_use_index(&self, field: &str) -> (r: bool)
        ensures
            r == filter_can_use_index(*self, field@),
        decreases self,
    {
        match self {
            Filter::Empty => false,
            Filter::Eq { field: f, .. }
            | Filter::Ne { field: f, .. }
            | Filter::Gt { field: f, .. }
            | Filter::Gte { field: f, .. }
            | Filter::Lt { field: f, .. }
            | Filter::Lte { field: f, .. }
            | Filter::In { field: f, .. }
            | Filter::Nin { field: f, .. }
            | Filter::Exists { field: f, .. }
            | Filter::Regex { field: f, .. } => str_eq(f.as_str(), field),
            Filter::And(filters) => {
                let mut i: usize = 0;
                assert(filters@.skip(0) =~= filters@);
                while i < filters.len()
                    invariant
                        i <= filters.len(),
                        any_can_use_index(filters@, field@) == any_can_use_index(
                            filters@.skip(i as int),
                            field@,
                        ),
                    decreases filters.len() - i,
                {
                    assert(filters@.skip(i as int).drop_first() =~= filters@.skip(i + 1));
                    if filters[i].can_use_index(field) {
                        return true;
                    }
                    i = i + 1;
                }
                false
            },
            Filter::Or(filters) => {
                let mut i: usize = 0;
                assert(filters@.skip(0) =~= filters@);
                while i < filters.len()
                    invariant
                        i <= filters.len(),
                        all_can_use_index(filters@, field@) == all_can_use_index(
                            filters@.skip(i as int),
                            field@,
                        ),
                    decreases filters.len() - i,
                {
                    assert(filters@.skip(i as int).drop_first() =~= filters@.skip(i + 1));
                    if !filters[i].can_use_index(field) {
                        return false;
                    }
                    i = i + 1;
                }
                true
            },
            Filter::Not(inner) => inner.can_use_index(field),
        }
    }
}

// ---------------------------------------------------------------------
// Projection
// ---------------------------------------------------------------------
impl Projection {
    /// Field names are kept in strictly increasing order.
    pub open spec fn wf(&self) -> bool {
        keys_sorted(self.fields@)
    }

    /// A projection that names no field.
    pub fn new() -> (r: Projection)
        ensures
            r.wf(),
            r.fields@.len() == 0,
    {
        Projection { fields: Vec::new() }
    }

    /// Marks `field` as included.
    pub fn include_field(self, field: &str) -> (r: Projection)
        requires
            self.wf(),
        ensures
            r.wf(),
            get_field(r.fields@, field@) == Some(ProjectionType::Include),
            forall|k: Seq<char>|
                k != field@ ==> get_field(r.fields@, k) == get_field(self.fields@, k),
    {
        let mut fields = self.fields;
        map_insert(&mut fields, field.to_owned(), ProjectionType::Include);
        Projection { fields }
    }

    /// Marks `field` as excluded.
    pub fn exclude(self, field: &str) -> (r: Projection)
        requires
            self.wf(),
        ensures
            r.wf(),
            get_field(r.fields@, field@) == Some(ProjectionType::Exclude),
            forall|k: Seq<char>|
                k != field@ ==> get_field(r.fields@, k) == get_field(self.fields@, k),
    {
        let mut fields = self.fields;
        map_insert(&mut fields, field.to_owned(), ProjectionType::Exclude);
        Projection { fields }
    }

    fn has(&self, t: ProjectionType) -> (r: bool)
        ensures
            r == has_type(self.fields@, t),
    {
        let mut i: usize = 0;
        while i < self.fields.len()
            invariant
                i <= self.fields.len(),
                forall|j: int| 0 <= j < i ==> (#[trigger] self.fields@[j]).1 != t,
            decreases self.fields.len() - i,
        {
            if self.fields[i].1 == t {
                return true;
            }
            i = i + 1;
        }
        false
    }

    /// Whether some field is included.
    pub fn is_inclusion(&self) -> (r: bool)
        ensures
            r == has_type(self.fields@, ProjectionType::Include),
    {
        self.has(ProjectionType::Include)
    }

    /// Whether some field is excluded.
    pub fn is_exclusion(&self) -> (r: bool)
        ensures
            r == has_type(self.fields@, ProjectionType::Exclude),
    {
        self.has(ProjectionType::Exclude)
    }

    /// Whether the field `field` survives the projection: in inclusion mode
    /// only the included fields and `_id`, otherwise every field that is
    /// not excluded.
    pub fn should_include(&self, field: &str) -> (r: bool)
        ensures
            r == projection_keeps(self.fields@, field@),
    {
        let t = map_get(&self.fields, field);
        if self.is_inclusion() {
            let id = "_id";
            proof {
                reveal_strlit("_id");
            }
            str_eq(field, id) || match t {
                Some(v) => *v == ProjectionType::Include,
                None => false,
            }
        } else {
            match t {
                Some(v) => *v != ProjectionType::Exclude,
                None => true,
            }
        }
    }
}

impl Default for Projection {
    fn default() -> (r: Projection)
        ensures
            r.wf(),
            r.fields@.len() == 0,
    {
        Projection::new()
    }
}

// ---------------------------------------------------------------------
// Sort
// ---------------------------------------------------------------------
impl Sort {
    /// No sort keys.
    pub fn new() -> (r: Sort)
        ensures
            r.fields@.len() == 0,
    {
        Sort { fields: Vec::new() }
    }

    /// Appends a sort key.
    pub fn add(self, field: &str, order: SortOrder) -> (r: Sort)
        ensures
            r.fields@.len() == self.fields@.len() + 1,
            r.fields@.subrange(0, self.fields@.len() as int) == self.fields@,
            r.fields@.last().0@ == field@,
            r.fields@.last().1 == order,
    {
        let mut fields = self.fields;
        fields.push((field.to_owned(), order));
        assert(fields@.subrange(0, fields@.len() - 1) =~= self.fields@);
        Sort { fields }
    }

    /// Appends an ascending key.
    pub fn asc(self, field: &str) -> (r: Sort)
        ensures
            r.fields@.len() == self.fields@.len() + 1,
            r.fields@.subrange(0, self.fields@.len() as int) == self.fields@,
            r.fields@.last().0@ == field@,
            r.fields@.last().1 == SortOrder::Ascending,
    {
        self.add(field, SortOrder::Ascending)
    }

    /// Appends a descending key.
    pub fn desc(self, field: &str) -> (r: Sort)
        ensures
            r.fields@.len() == self.fields@.len() + 1,
            r.fields@.subrange(0, self.fields@.len() as int) == self.fields@,
            r.fields@.last().0@ == field@,
            r.fields@.last().1 == SortOrder::Descending,
    {
        self.add(field, SortOrder::Descending)
    }

    /// The most significant key's field.
    pub fn first_field(&self) -> (r: Option<&str>)
        ensures
            self.fields@.len() == 0 ==> r is None,
            self.fields@.len() > 0 ==> (r matches Some(f) && f@ == self.fields@[0].0@),
    {
        if self.fields.len() == 0 {
            None
        } else {
            Some(self.fields[0].0.as_str())
        }
    }
}

impl Default for Sort {
    fn default() -> (r: Sort)
        ensures
            r.fields@.len() == 0,
    {
        Sort::new()
    }
}

} // verus!

//! Query planning: which index a query could use and which post-processing
//! steps it needs.
use vstd::prelude::*;
use crate::query::ast::{Filter, Query, single_field};
use crate::query::index_selector::IndexSelector;
use crate::util::concat_str;

verus! {

/// How a plan reads the collection.
#[derive(Debug, Clone, Copy, PartialEq, Eq, Structural)]
pub enum ExecutionStrategy {
    CollectionScan,
    IndexScan,
}

/// An execution plan. The cost estimate, which is a floating-point
/// quantity, is computed outside this library from the plan and the query.
#[derive(Debug)]
pub struct QueryPlan {
    pub use_index: Option<String>,
    pub execution_strategy: ExecutionStrategy,
    pub needs_sort: bool,
    pub needs_projection: bool,
    pub has_skip: bool,
    pub has_limit: bool,
}

/// Planning errors.
#[derive(Debug)]
pub enum QueryPlanError {
    PlanningError(String),
    InvalidQuery(String),
}

/// The query planner.
pub struct QueryPlanner {
    pub index_selector: IndexSelector,
}

/// The conventional name of the index on `field`.
pub open spec fn index_name_for(field: Seq<char>) -> Seq<char> {
    "idx_"@ + field
}

/// Filters whose field can be served by an index scan on their own.
pub open spec fn indexable_single(f: Filter) -> bool {
    f is Eq || f is Gt || f is Gte || f is Lt || f is Lte || f is In
}

/// What the planner may answer for a filter: for a single indexable
/// condition the index on its field; for a conjunction the index on the
/// field of one of its single-field branches (any of them), or none when
/// it has no such branch; otherwise none.
pub open spec fn plan_index_ok(f: Filter, r: Option<Seq<char>>) -> bool {
    match f {
        Filter::And(fs) => match r {
            Some(name) => exists|i: int|
                0 <= i < fs@.len() && (#[trigger] single_field(fs@[i])) is Some && name
                    == index_name_for(single_field(fs@[i]).unwrap()),
            None => forall|i: int| 0 <= i < fs@.len() ==> (#[trigger] single_field(fs@[i])) is None,
        },
        _ => if indexable_single(f) {
            r == Some(index_name_for(single_field(f).unwrap()))
        } else {
            r is None
        },
    }
}

impl QueryPlan {
    /// A plan that scans the whole collection and does nothing else.
    pub fn new() -> (r: QueryPlan)
        ensures
            r.use_index is None,
            r.execution_strategy == ExecutionStrategy::CollectionScan,
            !r.needs_sort && !r.needs_projection && !r.has_skip && !r.has_limit,
    {
        QueryPlan {
            use_index: None,
            execution_strategy: ExecutionStrategy::CollectionScan,
            needs_sort: false,
            needs_projection: false,
            has_skip: false,
            has_limit: false,
        }
    }
}

impl Default for QueryPlan {
    fn default() -> (r: QueryPlan)
        ensures
            r.use_index is None,
            r.execution_strategy == ExecutionStrategy::CollectionScan,
            !r.needs_sort && !r.needs_projection && !r.has_skip && !r.has_limit,
    {
        QueryPlan::new()
    }
}

impl QueryPlanner {
    /// A planner with no known indexes.
    pub fn new() -> (r: QueryPlanner)
        ensures
            r.index_selector.available_indexes@.len() == 0,
    {
        QueryPlanner { index_selector: IndexSelector::new() }
    }

    /// Builds the plan for a query. Planning does not fail.
    pub fn create_plan(&self, query: &Query) -> (r: Result<QueryPlan, QueryPlanError>)
        ensures
            r matches Ok(plan) && {
                &&& plan_index_ok(
                    query.filter,
                    match plan.use_index {
                        Some(s) => Some(s@),
                        None => None,
                    },
                )
                &&& plan.execution_strategy == (if plan.use_index is Some {
                    ExecutionStrategy::IndexScan
                } else {
                    ExecutionStrategy::CollectionScan
                })
                &&& plan.needs_sort == query.sort is Some
                &&& plan.needs_projection == query.projection is Some
                &&& plan.has_skip == (query.skip matches Some(s) && s > 0)
                &&& plan.has_limit == query.limit is Some
            },
    {
        let mut plan = QueryPlan::new();
        plan.use_index = self.analyze_filter_for_index(&query.filter);
        plan.execution_strategy = if plan.use_index.is_some() {
            ExecutionStrategy::IndexScan
        } else {
            ExecutionStrategy::CollectionScan
        };
        plan.needs_sort = query.sort.is_some();
        plan.needs_projection = query.projection.is_some();
        plan.has_skip = match query.skip {
            Some(s) => s > 0,
            None => false,
        };
        plan.has_limit = query.limit.is_some();
        Ok(plan)
    }

    #[verifier::loop_isolation(false)]
    fn analyze_filter_for_index(&self, filter: &Filter) -> (r: Option<String>)
        ensures
            plan_index_ok(
                *filter,
                match r {
                    Some(s) => Some(s@),
                    None => None,
                },
            ),
    {
        match filter {
            Filter::Eq { field, .. }
            | Filter::Gt { field, .. }
            | Filter::Gte { field, .. }
            | Filter::Lt { field, .. }
            | Filter::Lte { field, .. }
            | Filter::In { field, .. } => Some(concat_str("idx_", field.as_str())),
            Filter::And(filters) => {
                let mut i: usize = 0;
                while i < filters.len()
                    invariant
                        i <= filters.len(),
                        forall|j: int| 0 <= j < i ==> (#[trigger] single_field(filters@[j])) is None,
                    decreases filters.len() - i,
                {
                    match self.get_filter_field(&filters[i]) {
                        Some(f) => {
                            let name = concat_str("idx_", f.as_str());
                            assert(single_field(filters@[i as int]) is Some);
                            assert(name@ == index_name_for(single_field(filters@[i as int]).unwrap()));
                            return Some(name);
                        },
                        None => {},
                    }
                    i = i + 1;
                }
                None
            },
            _ => None,
        }
    }

    /// The field of a single-field filter.
    fn get_filter_field(&self, filter: &Filter) -> (r: Option<String>)
        ensures
            match r {
                Some(s) => single_field(*filter) == Some(s@),
                None => single_field(*filter) is None,
            },
    {
        match filter {
            Filter::Eq { field, .. }
            | Filter::Ne { field, .. }
            | Filter::Gt { field, .. }
            | Filter::Gte { field, .. }
            | Filter::Lt { field, .. }
            | Filter::Lte { field, .. }
            | Filter::In { field, .. }
            | Filter::Nin { field, .. }
            | Filter::Exists { field, .. }
            | Filter::Regex { field, .. } => Some(field.clone()),
            _ => None,
        }
    }
}

impl Default for QueryPlanner {
    fn default() -> (r: QueryPlanner)
        ensures
            r.index_selector.available_indexes@.len() == 0,
    {
        QueryPlanner::new()
    }
}

} // verus!

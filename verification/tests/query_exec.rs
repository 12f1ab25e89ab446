use veddb_core::document::{Document, DocumentId, Value};
use veddb_core::query::ast::{Filter, Projection, Query, Sort};
use veddb_core::query::executor::QueryExecutor;
use veddb_core::query::index_selector::IndexSelector;
use veddb_core::query::planner::{ExecutionStrategy, QueryPlanner};
use veddb_core::schema::IndexDefinition;

fn s(x: &str) -> Value {
    Value::String(x.to_string())
}

fn create_test_documents() -> Vec<Document> {
    let mut docs = Vec::new();
    for i in 0..10 {
        let mut doc = Document::with_id(DocumentId::from_u128(1000 + i as u128));
        doc.insert("name".to_string(), Value::String(format!("User{}", i)));
        doc.insert("age".to_string(), Value::Int32(20 + i));
        doc.insert("active".to_string(), Value::Bool(i % 2 == 0));
        docs.push(doc);
    }
    docs
}

#[test]
fn test_execute_empty_filter() {
    let executor = QueryExecutor::new();
    let query = Query::new();
    let results = executor.execute(create_test_documents(), &query).unwrap();
    assert_eq!(results.len(), 10);
}

#[test]
fn test_execute_eq_filter() {
    let executor = QueryExecutor::new();
    let query = Query::with_filter(Filter::eq("name", s("User5")));
    let results = executor.execute(create_test_documents(), &query).unwrap();
    assert_eq!(results.len(), 1);
    assert_eq!(results[0].get("name").unwrap().as_str(), Some("User5"));
}

#[test]
fn test_execute_gt_filter() {
    let executor = QueryExecutor::new();
    let query = Query::with_filter(Filter::gt("age", Value::Int32(25)));
    let results = executor.execute(create_test_documents(), &query).unwrap();
    assert_eq!(results.len(), 4);
}

#[test]
fn test_execute_in_filter() {
    let executor = QueryExecutor::new();
    let query = Query::with_filter(Filter::in_values("name", vec![s("User1"), s("User3"), s("User5")]));
    let results = executor.execute(create_test_documents(), &query).unwrap();
    assert_eq!(results.len(), 3);
}

#[test]
fn test_execute_exists_filter() {
    let executor = QueryExecutor::new();
    let query = Query::with_filter(Filter::field_exists("age", true));
    let results = executor.execute(create_test_documents(), &query).unwrap();
    assert_eq!(results.len(), 10);

    let query_not_exists = Query::with_filter(Filter::field_exists("email", true));
    let results = executor.execute(create_test_documents(), &query_not_exists).unwrap();
    assert_eq!(results.len(), 0);
}

#[test]
fn test_execute_and_filter() {
    let executor = QueryExecutor::new();
    let query = Query::with_filter(Filter::and(vec![
        Filter::gt("age", Value::Int32(23)),
        Filter::eq("active", Value::Bool(true)),
    ]));
    let results = executor.execute(create_test_documents(), &query).unwrap();
    assert_eq!(results.len(), 3);
}

#[test]
fn test_execute_or_filter() {
    let executor = QueryExecutor::new();
    let query = Query::with_filter(Filter::or(vec![Filter::eq("name", s("User1")), Filter::eq("name", s("User2"))]));
    let results = executor.execute(create_test_documents(), &query).unwrap();
    assert_eq!(results.len(), 2);
}

#[test]
fn test_execute_not_filter() {
    let executor = QueryExecutor::new();
    let query = Query::with_filter(Filter::not(Filter::eq("active", Value::Bool(true))));
    let results = executor.execute(create_test_documents(), &query).unwrap();
    assert_eq!(results.len(), 5);
}

#[test]
fn test_execute_with_sort() {
    let executor = QueryExecutor::new();
    let query = Query::new().sort(Sort::new().desc("age"));
    let results = executor.execute(create_test_documents(), &query).unwrap();
    assert_eq!(results.len(), 10);
    assert_eq!(results[0].get("age").unwrap().as_i64(), Some(29));
    assert_eq!(results[9].get("age").unwrap().as_i64(), Some(20));
}

#[test]
fn test_execute_with_skip_limit() {
    let executor = QueryExecutor::new();
    let query = Query::new().sort(Sort::new().asc("age")).skip(3).limit(4);
    let results = executor.execute(create_test_documents(), &query).unwrap();
    assert_eq!(results.len(), 4);
    assert_eq!(results[0].get("age").unwrap().as_i64(), Some(23));
    assert_eq!(results[3].get("age").unwrap().as_i64(), Some(26));
}

#[test]
fn test_execute_with_projection() {
    let executor = QueryExecutor::new();
    let query = Query::new().projection(Projection::new().include_field("name").include_field("age"));
    let results = executor.execute(create_test_documents(), &query).unwrap();
    assert_eq!(results.len(), 10);
    assert!(results[0].contains_key("name"));
    assert!(results[0].contains_key("age"));
    assert!(!results[0].contains_key("active"));
}

#[test]
fn test_execute_complex_query() {
    let executor = QueryExecutor::new();
    let query = Query::with_filter(Filter::and(vec![
        Filter::gte("age", Value::Int32(22)),
        Filter::lte("age", Value::Int32(27)),
        Filter::eq("active", Value::Bool(true)),
    ]))
    .projection(Projection::new().include_field("name").include_field("age"))
    .sort(Sort::new().desc("age"))
    .limit(2);
    let results = executor.execute(create_test_documents(), &query).unwrap();
    assert_eq!(results.len(), 2);
    assert_eq!(results[0].get("age").unwrap().as_i64(), Some(26));
    assert_eq!(results[1].get("age").unwrap().as_i64(), Some(24));
}

#[test]
fn test_regex_filter() {
    let executor = QueryExecutor::new();
    let query = Query::with_filter(Filter::regex("name", r"^User[0-4]$"));
    let results = executor.execute(create_test_documents(), &query).unwrap();
    assert_eq!(results.len(), 5);
}

#[test]
fn invalid_regex_is_an_error() {
    let executor = QueryExecutor::new();
    let query = Query::with_filter(Filter::regex("name", "("));
    assert!(executor.execute(create_test_documents(), &query).is_err());
}

#[test]
fn sort_keeps_every_document() {
    let executor = QueryExecutor::new();
    let query = Query::new().sort(Sort::new().asc("name"));
    let results = executor.execute(create_test_documents(), &query).unwrap();
    assert_eq!(results.len(), 10);
    assert_eq!(results[0].get("name").unwrap().as_str(), Some("User0"));
    assert_eq!(results[9].get("name").unwrap().as_str(), Some("User9"));
}

#[test]
fn test_create_plan_empty_query() {
    let planner = QueryPlanner::new();
    let query = Query::new();
    let plan = planner.create_plan(&query).unwrap();
    assert_eq!(plan.execution_strategy, ExecutionStrategy::CollectionScan);
    assert!(plan.use_index.is_none());
    assert!(!plan.needs_sort);
    assert!(!plan.needs_projection);
}

#[test]
fn test_create_plan_with_equality_filter() {
    let planner = QueryPlanner::new();
    let query = Query::with_filter(Filter::eq("name", s("John")));
    let plan = planner.create_plan(&query).unwrap();
    assert_eq!(plan.execution_strategy, ExecutionStrategy::IndexScan);
    assert_eq!(plan.use_index, Some("idx_name".to_string()));
}

#[test]
fn test_create_plan_with_range_filter() {
    let planner = QueryPlanner::new();
    let query = Query::with_filter(Filter::and(vec![Filter::gte("age", Value::Int32(18)), Filter::lte("age", Value::Int32(65))]));
    let plan = planner.create_plan(&query).unwrap();
    assert_eq!(plan.execution_strategy, ExecutionStrategy::IndexScan);
    assert_eq!(plan.use_index, Some("idx_age".to_string()));
}

#[test]
fn test_create_plan_with_sort() {
    let planner = QueryPlanner::new();
    let query = Query::new().sort(Sort::new().asc("name"));
    let plan = planner.create_plan(&query).unwrap();
    assert!(plan.needs_sort);
}

fn create_test_indexes() -> Vec<IndexDefinition> {
    vec![
        IndexDefinition::single("name".to_string()),
        IndexDefinition::single("age".to_string()),
        IndexDefinition::compound(vec!["name".to_string(), "age".to_string()]),
    ]
}

#[test]
fn test_select_index_for_equality() {
    let selector = IndexSelector::with_indexes(create_test_indexes());
    let query = Query::with_filter(Filter::eq("name", s("John")));
    let selected = selector.select_index(&query).unwrap();
    assert!(selected.is_some());
    let index_name = selected.unwrap();
    assert!(index_name.contains("name") || index_name.contains("compound"));
}

#[test]
fn test_select_index_for_range() {
    let selector = IndexSelector::with_indexes(create_test_indexes());
    let query = Query::with_filter(Filter::and(vec![Filter::gte("age", Value::Int32(18)), Filter::lte("age", Value::Int32(65))]));
    let selected = selector.select_index(&query).unwrap();
    assert!(selected.is_some());
}

#[test]
fn test_select_compound_index() {
    let selector = IndexSelector::with_indexes(create_test_indexes());
    let query = Query::with_filter(Filter::and(vec![Filter::eq("name", s("John")), Filter::eq("age", Value::Int32(30))]));
    let selected = selector.select_index(&query).unwrap();
    assert!(selected.is_some());
}

#[test]
fn test_no_index_available() {
    let selector = IndexSelector::new();
    let query = Query::with_filter(Filter::eq("name", s("John")));
    let selected = selector.select_index(&query).unwrap();
    assert!(selected.is_none());
}

#[test]
fn test_index_with_sort() {
    let selector = IndexSelector::with_indexes(create_test_indexes());
    let query = Query::with_filter(Filter::eq("name", s("John"))).sort(Sort::new().asc("name"));
    let selected = selector.select_index(&query).unwrap();
    assert!(selected.is_some());
}

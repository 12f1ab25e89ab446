use veddb_core::document::Value;
use veddb_core::query::ast::{Filter, Projection, Query, Sort, SortOrder};

fn s(x: &str) -> Value {
    Value::String(x.to_string())
}

#[test]
fn test_query_creation() {
    let query = Query::new();
    assert!(query.filter.is_empty());
    assert!(query.projection.is_none());
    assert!(query.sort.is_none());
    assert!(query.skip.is_none());
    assert!(query.limit.is_none());
}

#[test]
fn test_query_builder() {
    let query = Query::with_filter(Filter::eq("age", Value::Int32(30)))
        .projection(Projection::new().include_field("name").include_field("age"))
        .sort(Sort::new().asc("name"))
        .skip(10)
        .limit(20);

    assert!(!query.filter.is_empty());
    assert!(query.projection.is_some());
    assert!(query.sort.is_some());
    assert_eq!(query.skip, Some(10));
    assert_eq!(query.limit, Some(20));
}

#[test]
fn test_filter_eq() {
    let filter = Filter::eq("name", s("John"));
    match filter {
        Filter::Eq { field, value } => {
            assert_eq!(field, "name");
            assert_eq!(value.as_str(), Some("John"));
        }
        _ => panic!("Expected Eq filter"),
    }
}

#[test]
fn test_filter_comparison() {
    let filter_gt = Filter::gt("age", Value::Int32(18));
    let filter_gte = Filter::gte("age", Value::Int32(18));
    let filter_lt = Filter::lt("age", Value::Int32(65));
    let filter_lte = Filter::lte("age", Value::Int32(65));

    assert!(matches!(filter_gt, Filter::Gt { .. }));
    assert!(matches!(filter_gte, Filter::Gte { .. }));
    assert!(matches!(filter_lt, Filter::Lt { .. }));
    assert!(matches!(filter_lte, Filter::Lte { .. }));
}

#[test]
fn test_filter_in() {
    let filter = Filter::in_values("status", vec![s("active"), s("pending")]);

    match filter {
        Filter::In { field, values } => {
            assert_eq!(field, "status");
            assert_eq!(values.len(), 2);
        }
        _ => panic!("Expected In filter"),
    }
}

#[test]
fn test_filter_logical() {
    let filter = Filter::and(vec![Filter::eq("status", s("active")), Filter::gt("age", Value::Int32(18))]);

    match filter {
        Filter::And(filters) => {
            assert_eq!(filters.len(), 2);
        }
        _ => panic!("Expected And filter"),
    }

    let filter_or = Filter::or(vec![Filter::eq("role", s("admin")), Filter::eq("role", s("moderator"))]);

    assert!(matches!(filter_or, Filter::Or(_)));
}

#[test]
fn test_filter_not() {
    let filter = Filter::not(Filter::eq("deleted", Value::Bool(true)));
    assert!(matches!(filter, Filter::Not(_)));
}

#[test]
fn test_filter_exists() {
    let filter = Filter::field_exists("email", true);
    match filter {
        Filter::Exists { field, exists } => {
            assert_eq!(field, "email");
            assert!(exists);
        }
        _ => panic!("Expected Exists filter"),
    }
}

#[test]
fn test_filter_regex() {
    let filter = Filter::regex("email", r".*@example\.com$");
    match filter {
        Filter::Regex { field, pattern, .. } => {
            assert_eq!(field, "email");
            assert_eq!(pattern, r".*@example\.com$");
        }
        _ => panic!("Expected Regex filter"),
    }
}

#[test]
fn test_filter_get_fields() {
    let filter = Filter::and(vec![
        Filter::eq("name", s("John")),
        Filter::gt("age", Value::Int32(18)),
        Filter::field_exists("email", true),
    ]);

    let fields = filter.get_fields();
    assert_eq!(fields, vec!["age", "email", "name"]);
}

#[test]
fn test_filter_can_use_index() {
    let filter = Filter::eq("email", s("test@example.com"));
    assert!(filter.can_use_index("email"));
    assert!(!filter.can_use_index("name"));

    let filter_and = Filter::and(vec![Filter::eq("status", s("active")), Filter::gt("age", Value::Int32(18))]);
    assert!(filter_and.can_use_index("status"));
    assert!(filter_and.can_use_index("age"));
}

#[test]
fn test_projection_include() {
    let proj = Projection::new().include_field("name").include_field("age");
    assert!(proj.is_inclusion());
    assert!(!proj.is_exclusion());
    assert!(proj.should_include("name"));
    assert!(proj.should_include("age"));
    assert!(proj.should_include("_id"));
    assert!(!proj.should_include("email"));
}

#[test]
fn test_projection_exclude() {
    let proj = Projection::new().exclude("password").exclude("secret");
    assert!(!proj.is_inclusion());
    assert!(proj.is_exclusion());
    assert!(proj.should_include("name"));
    assert!(proj.should_include("age"));
    assert!(!proj.should_include("password"));
    assert!(!proj.should_include("secret"));
}

#[test]
fn test_sort_creation() {
    let sort = Sort::new().asc("name").desc("age");
    assert_eq!(sort.fields.len(), 2);
    assert_eq!(sort.fields[0].0, "name");
    assert_eq!(sort.fields[0].1, SortOrder::Ascending);
    assert_eq!(sort.fields[1].0, "age");
    assert_eq!(sort.fields[1].1, SortOrder::Descending);
}

#[test]
fn test_sort_first_field() {
    let sort = Sort::new().asc("name").desc("age");
    assert_eq!(sort.first_field(), Some("name"));

    let empty_sort = Sort::new();
    assert_eq!(empty_sort.first_field(), None);
}

#[test]
fn test_query_is_simple_key_lookup() {
    let query = Query::with_filter(Filter::eq("_id", s("123"))).limit(1);
    assert!(query.is_simple_key_lookup());

    let query_complex =
        Query::with_filter(Filter::and(vec![Filter::eq("name", s("John")), Filter::gt("age", Value::Int32(18))]));
    assert!(!query_complex.is_simple_key_lookup());
}

#[test]
fn test_query_get_lookup_field() {
    let query = Query::with_filter(Filter::eq("email", s("test@example.com")));
    assert_eq!(query.get_lookup_field(), Some("email"));

    let query_complex = Query::with_filter(Filter::and(vec![Filter::eq("name", s("John"))]));
    assert_eq!(query_complex.get_lookup_field(), None);
}

#[test]
fn get_fields_deduplicates_across_branches() {
    let filter = Filter::or(vec![
        Filter::eq("b", s("x")),
        Filter::not(Filter::eq("a", s("y"))),
        Filter::lt("b", Value::Int32(3)),
    ]);
    assert_eq!(filter.get_fields(), vec!["a", "b"]);
}

#[test]
fn projection_mode_follows_first_field() {
    let proj = Projection::new().exclude("a").include_field("b");
    assert!(proj.is_exclusion());
    assert!(!proj.should_include("a"));
}

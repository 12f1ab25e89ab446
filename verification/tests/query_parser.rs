use veddb_core::query::ast::{Filter, Query, SortOrder};
use veddb_core::query::parser::{JsonNumber, JsonValue, QueryParseError, QueryParser};

/// The parser's JSON value for a JSON document, built as the server builds it.
fn to_json_value(v: &serde_json::Value) -> JsonValue {
    match v {
        serde_json::Value::Null => JsonValue::Null,
        serde_json::Value::Bool(b) => JsonValue::Bool(*b),
        serde_json::Value::Number(n) => {
            if let Some(i) = n.as_i64() {
                JsonValue::Number(JsonNumber::Int(i))
            } else if let Some(u) = n.as_u64() {
                JsonValue::Number(JsonNumber::UInt(u))
            } else {
                JsonValue::Number(JsonNumber::Fractional)
            }
        }
        serde_json::Value::String(s) => JsonValue::String(s.clone()),
        serde_json::Value::Array(items) => JsonValue::Array(items.iter().map(to_json_value).collect()),
        serde_json::Value::Object(map) => {
            JsonValue::Object(map.iter().map(|(k, v)| (k.clone(), to_json_value(v))).collect())
        }
    }
}

fn parse(text: &str) -> Result<Query, QueryParseError> {
    let v: serde_json::Value = serde_json::from_str(text).unwrap();
    QueryParser::parse_from_value(&to_json_value(&v))
}

#[test]
fn test_parse_empty_query() {
    let query = parse(r#"{"filter": {}}"#).unwrap();
    assert!(query.filter.is_empty());
}

#[test]
fn test_parse_simple_equality() {
    let query = parse(r#"{"filter": {"name": "John"}}"#).unwrap();
    match query.filter {
        Filter::Eq { field, value } => {
            assert_eq!(field, "name");
            assert_eq!(value.as_str(), Some("John"));
        }
        _ => panic!("Expected Eq filter"),
    }
}

#[test]
fn test_parse_comparison_operators() {
    let query = parse(r#"{"filter": {"age": {"$gt": 18}}}"#).unwrap();
    match query.filter {
        Filter::Gt { field, value } => {
            assert_eq!(field, "age");
            assert_eq!(value.as_i64(), Some(18));
        }
        _ => panic!("Expected Gt filter"),
    }
}

#[test]
fn test_parse_in_operator() {
    let query = parse(r#"{"filter": {"status": {"$in": ["active", "pending"]}}}"#).unwrap();
    match query.filter {
        Filter::In { field, values } => {
            assert_eq!(field, "status");
            assert_eq!(values.len(), 2);
        }
        _ => panic!("Expected In filter"),
    }
}

#[test]
fn test_parse_exists_operator() {
    let query = parse(r#"{"filter": {"email": {"$exists": true}}}"#).unwrap();
    match query.filter {
        Filter::Exists { field, exists } => {
            assert_eq!(field, "email");
            assert!(exists);
        }
        _ => panic!("Expected Exists filter"),
    }
}

#[test]
fn test_parse_regex_operator() {
    let query = parse(r#"{"filter": {"email": {"$regex": ".*@example\\.com$"}}}"#).unwrap();
    match query.filter {
        Filter::Regex { field, pattern, .. } => {
            assert_eq!(field, "email");
            assert_eq!(pattern, r".*@example\.com$");
        }
        _ => panic!("Expected Regex filter"),
    }
}

#[test]
fn test_parse_and_operator() {
    let query = parse(r#"{"filter": {"$and": [{"name": "John"}, {"age": {"$gt": 18}}]}}"#).unwrap();
    match query.filter {
        Filter::And(filters) => assert_eq!(filters.len(), 2),
        _ => panic!("Expected And filter"),
    }
}

#[test]
fn test_parse_or_operator() {
    let query = parse(r#"{"filter": {"$or": [{"role": "admin"}, {"role": "moderator"}]}}"#).unwrap();
    match query.filter {
        Filter::Or(filters) => assert_eq!(filters.len(), 2),
        _ => panic!("Expected Or filter"),
    }
}

#[test]
fn test_parse_not_operator() {
    let query = parse(r#"{"filter": {"$not": {"deleted": true}}}"#).unwrap();
    match query.filter {
        Filter::Not(filter) => assert!(matches!(*filter, Filter::Eq { .. })),
        _ => panic!("Expected Not filter"),
    }
}

#[test]
fn test_parse_projection_include() {
    let query = parse(r#"{"filter": {}, "projection": {"name": 1, "age": 1}}"#).unwrap();
    let projection = query.projection.unwrap();
    assert!(projection.is_inclusion());
    assert!(projection.should_include("name"));
    assert!(projection.should_include("age"));
    assert!(!projection.should_include("email"));
}

#[test]
fn test_parse_projection_exclude() {
    let query = parse(r#"{"filter": {}, "projection": {"password": 0, "secret": 0}}"#).unwrap();
    let projection = query.projection.unwrap();
    assert!(projection.is_exclusion());
    assert!(projection.should_include("name"));
    assert!(!projection.should_include("password"));
    assert!(!projection.should_include("secret"));
}

#[test]
fn test_parse_sort() {
    let query = parse(r#"{"filter": {}, "sort": {"name": 1, "age": -1}}"#).unwrap();
    let sort = query.sort.unwrap();
    assert_eq!(sort.fields.len(), 2);
    let name_field = sort.fields.iter().find(|(f, _)| f == "name");
    let age_field = sort.fields.iter().find(|(f, _)| f == "age");
    assert!(name_field.is_some());
    assert!(age_field.is_some());
    assert_eq!(name_field.unwrap().1, SortOrder::Ascending);
    assert_eq!(age_field.unwrap().1, SortOrder::Descending);
}

#[test]
fn test_parse_skip_limit() {
    let query = parse(r#"{"filter": {}, "skip": 10, "limit": 20}"#).unwrap();
    assert_eq!(query.skip, Some(10));
    assert_eq!(query.limit, Some(20));
}

#[test]
fn test_parse_complex_query() {
    let json = r#"{
        "filter": {
            "$and": [
                {"status": "active"},
                {"age": {"$gte": 18, "$lte": 65}}
            ]
        },
        "projection": {"name": 1, "age": 1},
        "sort": {"name": 1},
        "skip": 0,
        "limit": 100
    }"#;
    let query = parse(json).unwrap();
    assert!(!query.filter.is_empty());
    assert!(query.projection.is_some());
    assert!(query.sort.is_some());
    assert_eq!(query.skip, Some(0));
    assert_eq!(query.limit, Some(100));
}

#[test]
fn test_validate_skip_limit() {
    let mut query = Query::new();
    query.skip = Some(2_000_000);
    assert!(QueryParser::validate(&query).is_err());

    query.skip = Some(100);
    query.limit = Some(200_000);
    assert!(QueryParser::validate(&query).is_err());

    query.limit = Some(100);
    assert!(QueryParser::validate(&query).is_ok());
}

#[test]
fn test_implicit_and() {
    let query = parse(r#"{"filter": {"name": "John", "age": 30}}"#).unwrap();
    match query.filter {
        Filter::And(filters) => assert_eq!(filters.len(), 2),
        _ => panic!("Expected implicit And filter"),
    }
}

#[test]
fn unknown_operator_is_refused() {
    match parse(r#"{"filter": {"age": {"$between": 3}}}"#) {
        Err(QueryParseError::UnsupportedOperator(_)) => {}
        other => panic!("unexpected: {:?}", other.is_ok()),
    }
}

#[test]
fn query_must_be_an_object() {
    match parse(r#"[1, 2]"#) {
        Err(QueryParseError::InvalidFormat(_)) => {}
        _ => panic!("expected InvalidFormat"),
    }
}

#[test]
fn regex_options_accompany_regex() {
    let query = parse(r#"{"filter": {"email": {"$regex": "^a", "$options": "i"}}}"#).unwrap();
    match query.filter {
        Filter::Regex { field, pattern, options } => {
            assert_eq!(field, "email");
            assert_eq!(pattern, "^a");
            assert_eq!(options, Some("i".to_string()));
        }
        other => panic!("Expected a regex filter, got {:?}", other),
    }
    // Without `$regex`, `$options` is no operator.
    match parse(r#"{"filter": {"email": {"$options": "i"}}}"#) {
        Err(QueryParseError::UnsupportedOperator(op)) => assert_eq!(op, "$options"),
        other => panic!("Expected an unsupported operator, got {:?}", other),
    }
}

#[test]
fn logical_operators_join_field_conditions() {
    let query = parse(r#"{"filter": {"name": "John", "$or": [{"role": "admin"}, {"role": "moderator"}]}}"#).unwrap();
    match query.filter {
        Filter::And(filters) => {
            assert_eq!(filters.len(), 2);
            assert!(filters.iter().any(|f| matches!(f, Filter::Or(fs) if fs.len() == 2)));
            assert!(filters.iter().any(|f| matches!(f, Filter::Eq { field, .. } if field == "name")));
        }
        other => panic!("Expected And filter, got {:?}", other),
    }
}

#[test]
fn projection_may_exclude_id_beside_inclusions() {
    let query = parse(r#"{"projection": {"name": 1, "_id": 0}}"#).unwrap();
    assert!(QueryParser::validate(&query).is_ok());
    let mixed = parse(r#"{"projection": {"name": 1, "age": 0}}"#).unwrap();
    assert!(QueryParser::validate(&mixed).is_err());
}

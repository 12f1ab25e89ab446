use veddb_core::schema::{CacheStrategy, CacheWarmingStrategy, CollectionCacheConfig, IndexDefinition};

#[test]
fn test_index_definition() {
    let index = IndexDefinition::single("email".to_string()).unique();
    assert!(index.unique);
    assert_eq!(index.name, "idx_email");

    let compound = IndexDefinition::compound(vec!["first_name".to_string(), "last_name".to_string()]);
    assert_eq!(compound.name, "idx_first_name_last_name");
}

#[test]
fn test_cache_config() {
    let config = CollectionCacheConfig {
        strategy: CacheStrategy::WriteThrough,
        ttl: Some(3600),
        fields: Some(vec!["name".to_string(), "email".to_string()]),
        warming: CacheWarmingStrategy::PreloadOnStartup { limit: 1000 },
    };
    assert_eq!(config.strategy, CacheStrategy::WriteThrough);
    assert_eq!(config.ttl, Some(3600));
}

#[test]
fn default_cache_config_has_no_cache() {
    let config = CollectionCacheConfig::default();
    assert_eq!(config.strategy, CacheStrategy::NoCache);
    assert_eq!(config.ttl, None);
}

#[test]
fn sparse_index_keeps_name() {
    let index = IndexDefinition::single("tag".to_string()).sparse();
    assert!(index.sparse);
    assert!(!index.unique);
    assert_eq!(index.name, "idx_tag");
}

use veddb_core::document::{Document, DocumentId, Value};
use veddb_core::schema::{FieldDefinition, FieldType, Schema, ValidationError, Validator};

#[test]
fn test_schema_creation() {
    let schema = Schema::new();
    assert_eq!(schema.version, 1);
    assert!(schema.fields.is_empty());
    assert!(schema.indexes.is_empty());
}

#[test]
fn test_field_definition() {
    let field = FieldDefinition::new(FieldType::String { max_length: Some(100) }).required().unique().indexed();
    assert!(field.required);
    assert!(field.unique);
    assert!(field.indexed);
}

#[test]
fn test_field_type_compatibility() {
    let string_type = FieldType::String { max_length: None };
    assert!(string_type.is_compatible(&Value::String("test".to_string())));
    assert!(!string_type.is_compatible(&Value::Int32(42)));

    let int_type = FieldType::Int32;
    assert!(int_type.is_compatible(&Value::Int32(42)));
    assert!(!int_type.is_compatible(&Value::String("test".to_string())));

    let array_type = FieldType::Array { item_type: Box::new(FieldType::Int32) };
    assert!(array_type.is_compatible(&Value::Array(vec![Value::Int32(1), Value::Int32(2)])));
    assert!(!array_type.is_compatible(&Value::Array(vec![Value::String("test".to_string())])));
}

#[test]
fn test_validator_min() {
    let validator = Validator::Min(10);
    assert!(validator.validate("age", &Value::Int32(15)).is_ok());
    assert!(validator.validate("age", &Value::Int32(5)).is_err());
}

#[test]
fn test_validator_max() {
    let validator = Validator::Max(100);
    assert!(validator.validate("age", &Value::Int32(50)).is_ok());
    assert!(validator.validate("age", &Value::Int32(150)).is_err());
}

#[test]
fn test_validator_min_length() {
    let validator = Validator::MinLength(3);
    assert!(validator.validate("name", &Value::String("John".to_string())).is_ok());
    assert!(validator.validate("name", &Value::String("Jo".to_string())).is_err());
}

#[test]
fn test_validator_max_length() {
    let validator = Validator::MaxLength(10);
    assert!(validator.validate("name", &Value::String("John".to_string())).is_ok());
    assert!(validator.validate("name", &Value::String("VeryLongName".to_string())).is_err());
}

#[test]
fn test_validator_regex() {
    let validator = Validator::Regex(r"^\d{3}-\d{4}$".to_string());
    assert!(validator.validate("phone", &Value::String("123-4567".to_string())).is_ok());
    assert!(validator.validate("phone", &Value::String("invalid".to_string())).is_err());
}

#[test]
fn test_validator_enum() {
    let validator = Validator::Enum(vec![
        Value::String("red".to_string()),
        Value::String("green".to_string()),
        Value::String("blue".to_string()),
    ]);
    assert!(validator.validate("color", &Value::String("red".to_string())).is_ok());
    assert!(validator.validate("color", &Value::String("yellow".to_string())).is_err());
}

#[test]
fn test_schema_validation_required_field() {
    let mut schema = Schema::new();
    schema.add_field("name".to_string(), FieldDefinition::new(FieldType::String { max_length: None }).required());

    let mut doc = Document::with_id(DocumentId::from_u128(1));
    doc.insert("name".to_string(), Value::String("John".to_string()));
    assert!(schema.validate(&doc).is_ok());

    let doc_missing = Document::with_id(DocumentId::from_u128(2));
    assert!(schema.validate(&doc_missing).is_err());
}

#[test]
fn test_schema_validation_type_mismatch() {
    let mut schema = Schema::new();
    schema.add_field("age".to_string(), FieldDefinition::new(FieldType::Int32));

    let mut doc = Document::with_id(DocumentId::from_u128(3));
    doc.insert("age".to_string(), Value::String("thirty".to_string()));
    assert!(schema.validate(&doc).is_err());
}

#[test]
fn test_schema_apply_defaults() {
    let mut schema = Schema::new();
    schema.add_field(
        "status".to_string(),
        FieldDefinition::new(FieldType::String { max_length: None }).default_value(Value::String("active".to_string())),
    );

    let mut doc = Document::with_id(DocumentId::from_u128(4));
    schema.apply_defaults(&mut doc).unwrap();
    assert_eq!(doc.get("status").unwrap().as_str(), Some("active"));
}

#[test]
fn validation_reports_the_first_failing_field() {
    let mut schema = Schema::new();
    schema.add_field("b".to_string(), FieldDefinition::new(FieldType::Int64).add_validator(Validator::Max(5)));
    schema.add_field("a".to_string(), FieldDefinition::new(FieldType::Boolean).required());
    let mut doc = Document::with_id(DocumentId::from_u128(5));
    doc.insert("b".to_string(), Value::Int32(9));
    match schema.validate(&doc) {
        Err(ValidationError::RequiredFieldMissing(f)) => assert_eq!(f, "a"),
        other => panic!("unexpected {:?}", other.is_ok()),
    }
    doc.insert("a".to_string(), Value::Bool(true));
    match schema.validate(&doc) {
        Err(ValidationError::MaxValueViolation { field, max, actual }) => {
            assert_eq!(field, "b");
            assert_eq!(max, 5);
            assert_eq!(actual, 9);
        }
        other => panic!("unexpected {:?}", other.is_ok()),
    }
}

#[test]
fn type_mismatch_names_the_kinds() {
    let def = FieldDefinition::new(FieldType::Date);
    match def.validate("when", &Value::Int64(3)) {
        Err(ValidationError::TypeMismatch { field, expected, actual }) => {
            assert_eq!(field, "when");
            assert_eq!(expected, "Date");
            assert_eq!(actual, "Int64");
        }
        _ => panic!("expected a type mismatch"),
    }
}

#[test]
fn nested_object_types() {
    let mut inner = Schema::new();
    inner.add_field("zip".to_string(), FieldDefinition::new(FieldType::String { max_length: None }).required());
    let t = FieldType::Object { fields: inner.fields };
    let ok = Value::Object(vec![("zip".to_string(), Value::String("12345".to_string()))]);
    let missing = Value::Object(vec![]);
    let wrong = Value::Object(vec![("zip".to_string(), Value::Int32(1))]);
    assert!(t.is_compatible(&ok));
    assert!(!t.is_compatible(&missing));
    assert!(!t.is_compatible(&wrong));
    assert!(FieldType::Any.is_compatible(&Value::Null));
    assert!(FieldType::Float64.is_compatible(&Value::Int64(2)));
    assert!(FieldType::Int64.is_compatible(&Value::Int32(2)));
}

#[test]
fn length_counts_bytes_and_invalid_regex_is_reported() {
    let v = Validator::MaxLength(3);
    assert!(v.validate("s", &Value::String("\u{e9}\u{e9}".to_string())).is_err());
    assert!(v.validate("n", &Value::Int32(12345)).is_ok());
    match Validator::Regex("(".to_string()).validate("s", &Value::String("x".to_string())) {
        Err(ValidationError::InvalidRegex { pattern, .. }) => assert_eq!(pattern, "("),
        _ => panic!("expected an invalid pattern"),
    }
    assert!(Validator::Custom("f".to_string()).validate("s", &Value::Null).is_ok());
}

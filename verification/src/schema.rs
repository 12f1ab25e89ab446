//! Collection schemas: field types and constraints, document validation,
//! index definitions and per-collection cache configuration.
use vstd::prelude::*;
use crate::util::concat_str;
use vstd::string::StringExecFns;
use crate::document::{Document, Value, same_value, seq_has_value, model_seq, contains_value, lemma_model_seq};
use crate::sorted_map::{get_field, keys_sorted, map_insert, map_get, lemma_sorted_unique};
use crate::regex_match::{regex_outcome, regex_is_match};
use vstd::utf8::encode_utf8;

verus! {

/// Joins names with `_` between them.
pub open spec fn join_underscore(fields: Seq<Seq<char>>) -> Seq<char>
    decreases fields.len(),
{
    if fields.len() == 0 {
        Seq::empty()
    } else if fields.len() == 1 {
        fields[0]
    } else {
        join_underscore(fields.drop_last()) + "_"@ + fields.last()
    }
}

/// The names in `v`, as character sequences.
pub open spec fn string_views(v: Seq<String>) -> Seq<Seq<char>> {
    v.map_values(|s: String| s@)
}

/// Index type.
#[derive(Debug)]
pub enum IndexType {
    Single { field: String },
    Compound { fields: Vec<String> },
    Text { field: String },
    Geospatial { field: String },
}

/// Index definition.
#[derive(Debug)]
pub struct IndexDefinition {
    pub name: String,
    pub index_type: IndexType,
    pub unique: bool,
    pub sparse: bool,
}

impl IndexDefinition {
    /// A single-field index named `idx_<field>`.
    pub fn single(field: String) -> (r: IndexDefinition)
        ensures
            r.name@ == "idx_"@ + field@,
            r.index_type == (IndexType::Single { field }),
            !r.unique,
            !r.sparse,
    {
        let name = concat_str("idx_", field.as_str());
        IndexDefinition { name, index_type: IndexType::Single { field }, unique: false, sparse: false }
    }

    /// A compound index named `idx_` followed by the fields joined with `_`.
    pub fn compound(fields: Vec<String>) -> (r: IndexDefinition)
        ensures
            r.name@ == "idx_"@ + join_underscore(string_views(fields@)),
            r.index_type == (IndexType::Compound { fields }),
            !r.unique,
            !r.sparse,
    {
        let mut joined = String::new();
        let mut i: usize = 0;
        while i < fields.len()
            invariant
                i <= fields.len(),
                joined@ == join_underscore(string_views(fields@.subrange(0, i as int))),
            decreases fields.len() - i,
        {
            proof {
                let pre = string_views(fields@.subrange(0, i as int));
                let post = string_views(fields@.subrange(0, i + 1));
                assert(post.drop_last() =~= pre);
                assert(post.last() == fields@[i as int]@);
            }
            if i == 0 {
                joined = fields[i].clone();
            } else {
                let with_sep = concat_str(joined.as_str(), "_");
                joined = concat_str(with_sep.as_str(), fields[i].as_str());
            }
            i = i + 1;
        }
        proof {
            assert(fields@.subrange(0, fields@.len() as int) =~= fields@);
        }
        let name = concat_str("idx_", joined.as_str());
        IndexDefinition {
            name,
            index_type: IndexType::Compound { fields },
            unique: false,
            sparse: false,
        }
    }

    /// Marks the index unique.
    pub fn unique(self) -> (r: IndexDefinition)
        ensures
            r == (IndexDefinition { unique: true, ..self }),
    {
        IndexDefinition { unique: true, ..self }
    }

    /// Marks the index sparse.
    pub fn sparse(self) -> (r: IndexDefinition)
        ensures
            r == (IndexDefinition { sparse: true, ..self }),
    {
        IndexDefinition { sparse: true, ..self }
    }
}

/// Cache strategy.
#[derive(Debug, Clone, Copy, PartialEq, Eq, Structural)]
pub enum CacheStrategy {
    NoCache,
    WriteThrough,
    WriteBehind { delay_ms: u64 },
    ReadThrough,
}

/// Cache warming strategy.
#[derive(Debug, Clone, Copy, PartialEq, Eq, Structural)]
pub enum CacheWarmingStrategy {
    NoWarming,
    PreloadOnStartup { limit: usize },
    LazyLoad,
    ScheduledRefresh { interval_seconds: u64 },
}

/// Cache configuration of a collection.
#[derive(Debug)]
pub struct CollectionCacheConfig {
    pub strategy: CacheStrategy,
    pub ttl: Option<u64>,
    pub fields: Option<Vec<String>>,
    pub warming: CacheWarmingStrategy,
}

impl Default for CollectionCacheConfig {
    fn default() -> (r: CollectionCacheConfig)
        ensures
            r.strategy == CacheStrategy::NoCache,
            r.ttl is None,
            r.fields is None,
            r.warming == CacheWarmingStrategy::NoWarming,
    {
        CollectionCacheConfig {
            strategy: CacheStrategy::NoCache,
            ttl: None,
            fields: None,
            warming: CacheWarmingStrategy::NoWarming,
        }
    }
}


/// The type a field's values must have.
#[derive(Debug)]
pub enum FieldType {
    String { max_length: Option<usize> },
    Int32,
    Int64,
    /// Numbers; only integer values exist in this library, and both kinds
    /// are accepted.
    Float64,
    Boolean,
    Date,
    Binary,
    ObjectId,
    Array { item_type: Box<FieldType> },
    /// A nested object with field definitions, kept in increasing name order.
    Object { fields: Vec<(String, FieldDefinition)> },
    Reference { collection: String },
    Any,
}

/// A constraint on a field's value.
#[derive(Debug)]
pub enum Validator {
    /// Smallest allowed number.
    Min(i64),
    /// Largest allowed number.
    Max(i64),
    /// Smallest allowed length: bytes of a string or binary, items of an array.
    MinLength(usize),
    /// Largest allowed length.
    MaxLength(usize),
    /// A regular expression that string values must match.
    Regex(String),
    /// The allowed values.
    Enum(Vec<Value>),
    /// An application-defined check, which always passes here.
    Custom(String),
}

/// A field's definition.
#[derive(Debug)]
pub struct FieldDefinition {
    pub field_type: FieldType,
    pub required: bool,
    pub default: Option<Value>,
    pub unique: bool,
    pub indexed: bool,
    pub validators: Vec<Validator>,
    pub encrypted: bool,
    pub encryption_key_id: Option<String>,
}

/// Why a document does not fit its schema.
#[derive(Debug)]
pub enum ValidationError {
    RequiredFieldMissing(String),
    /// The field's value has another type; `expected` names the field type
    /// and `actual` the kind of value.
    TypeMismatch { field: String, expected: String, actual: String },
    MinValueViolation { field: String, min: i64, actual: i64 },
    MaxValueViolation { field: String, max: i64, actual: i64 },
    MinLengthViolation { field: String, min: usize, actual: usize },
    MaxLengthViolation { field: String, max: usize, actual: usize },
    RegexMismatch { field: String, pattern: String, value: String },
    InvalidRegex { pattern: String, error: String },
    EnumViolation { field: String, allowed: Vec<Value>, actual: Value },
    UniqueConstraintViolation(String),
}

/// Whether a field type accepts a value.
pub open spec fn accepts(t: FieldType, v: Value) -> bool
    decreases t,
{
    match t {
        FieldType::String { .. } => v is String,
        FieldType::Int32 => v is Int32,
        FieldType::Int64 => v is Int64 || v is Int32,
        FieldType::Float64 => v is Int32 || v is Int64,
        FieldType::Boolean => v is Bool,
        FieldType::Date => v is DateTime,
        FieldType::Binary => v is Binary,
        FieldType::ObjectId => v is ObjectId,
        FieldType::Array { item_type } => match v {
            Value::Array(items) => forall|i: int| 0 <= i < items@.len() ==> accepts(*item_type, #[trigger] items@[i]),
            _ => false,
        },
        FieldType::Object { fields } => match v {
            Value::Object(obj) => forall|i: int| 0 <= i < fields@.len() ==> {
                let (name, def) = #[trigger] fields@[i];
                &&& def.required ==> get_field(obj@, name@) is Some
                &&& get_field(obj@, name@) matches Some(x) ==> accepts(def.field_type, x)
            },
            _ => false,
        },
        FieldType::Reference { .. } => v is ObjectId,
        FieldType::Any => true,
    }
}

/// The number in an integer value.
pub open spec fn number_of(v: Value) -> Option<i64> {
    match v {
        Value::Int32(x) => Some(x as i64),
        Value::Int64(x) => Some(x),
        _ => None,
    }
}

/// The length a length constraint measures: bytes of a string or binary
/// value, items of an array.
pub open spec fn length_of(v: Value) -> Option<nat> {
    match v {
        Value::String(s) => Some(encode_utf8(s@).len()),
        Value::Array(a) => Some(a@.len()),
        Value::Binary(b) => Some(b@.len()),
        _ => None,
    }
}

/// Whether a value meets a constraint.
pub open spec fn validator_passes(vd: Validator, v: Value) -> bool {
    match vd {
        Validator::Min(m) => number_of(v) matches Some(n) ==> n >= m,
        Validator::Max(m) => number_of(v) matches Some(n) ==> n <= m,
        Validator::MinLength(m) => length_of(v) matches Some(n) ==> n >= m,
        Validator::MaxLength(m) => length_of(v) matches Some(n) ==> n <= m,
        Validator::Regex(p) => v matches Value::String(s) ==> regex_outcome(p@, s@) == Ok::<bool, Seq<char>>(true),
        Validator::Enum(allowed) => seq_has_value(allowed@, v),
        Validator::Custom(_) => true,
    }
}

/// Numeric bounds judge an integer by its value, whatever its width:
/// `Max(m)` refuses exactly the integers above `m` and `Min(m)` exactly
/// those below `m`, a 32-bit integer is judged as the 64-bit integer of the
/// same value, and a refusal reports the bound and the value itself.
pub proof fn lemma_bounds_judge_integers(m: i64, x: i64, y: i32, field: Seq<char>, e: ValidationError)
    ensures
        validator_passes(Validator::Max(m), Value::Int64(x)) <==> x <= m,
        validator_passes(Validator::Min(m), Value::Int64(x)) <==> x >= m,
        validator_passes(Validator::Max(m), Value::Int32(y)) == validator_passes(Validator::Max(m), Value::Int64(y as i64)),
        validator_passes(Validator::Min(m), Value::Int32(y)) == validator_passes(Validator::Min(m), Value::Int64(y as i64)),
        validator_error(Validator::Max(m), field, Value::Int64(x), e)
            ==> (e matches ValidationError::MaxValueViolation { max, actual, .. } && max == m && actual == x),
        validator_error(Validator::Min(m), field, Value::Int64(x), e)
            ==> (e matches ValidationError::MinValueViolation { min, actual, .. } && min == m && actual == x),
{
}

/// Whether `e` is the error a failed constraint reports for `field`.
pub open spec fn validator_error(vd: Validator, field: Seq<char>, v: Value, e: ValidationError) -> bool {
    match vd {
        Validator::Min(m) => e matches ValidationError::MinValueViolation { field: f, min, actual }
            && f@ == field && min == m && number_of(v) == Some(actual),
        Validator::Max(m) => e matches ValidationError::MaxValueViolation { field: f, max, actual }
            && f@ == field && max == m && number_of(v) == Some(actual),
        Validator::MinLength(m) => e matches ValidationError::MinLengthViolation { field: f, min, actual }
            && f@ == field && min == m && length_of(v) == Some(actual as nat),
        Validator::MaxLength(m) => e matches ValidationError::MaxLengthViolation { field: f, max, actual }
            && f@ == field && max == m && length_of(v) == Some(actual as nat),
        Validator::Regex(p) => match v {
            Value::String(s) => match regex_outcome(p@, s@) {
                Err(msg) => e matches ValidationError::InvalidRegex { pattern, error } && pattern@ == p@ && error@ == msg,
                Ok(_) => e matches ValidationError::RegexMismatch { field: f, pattern, value }
                    && f@ == field && pattern@ == p@ && value@ == s@,
            },
            _ => false,
        },
        Validator::Enum(allowed) => e matches ValidationError::EnumViolation { field: f, allowed: a, actual }
            && f@ == field && model_seq(a@) == model_seq(allowed@) && same_value(actual, v),
        Validator::Custom(_) => false,
    }
}

/// The name of a field type's kind.
pub open spec fn field_type_name(t: FieldType) -> Seq<char> {
    match t {
        FieldType::String { .. } => "String"@,
        FieldType::Int32 => "Int32"@,
        FieldType::Int64 => "Int64"@,
        FieldType::Float64 => "Float64"@,
        FieldType::Boolean => "Boolean"@,
        FieldType::Date => "Date"@,
        FieldType::Binary => "Binary"@,
        FieldType::ObjectId => "ObjectId"@,
        FieldType::Array { .. } => "Array"@,
        FieldType::Object { .. } => "Object"@,
        FieldType::Reference { .. } => "Reference"@,
        FieldType::Any => "Any"@,
    }
}

/// The name of a value's kind.
pub open spec fn value_kind(v: Value) -> Seq<char> {
    match v {
        Value::Null => "Null"@,
        Value::Bool(_) => "Bool"@,
        Value::Int32(_) => "Int32"@,
        Value::Int64(_) => "Int64"@,
        Value::String(_) => "String"@,
        Value::Binary(_) => "Binary"@,
        Value::DateTime(_) => "DateTime"@,
        Value::ObjectId(_) => "ObjectId"@,
        Value::Array(_) => "Array"@,
        Value::Object(_) => "Object"@,
    }
}

/// Whether a value fits a field definition: the type accepts it and every
/// constraint passes.
pub open spec fn field_passes(fd: FieldDefinition, v: Value) -> bool {
    accepts(fd.field_type, v) && forall|i: int| 0 <= i < fd.validators@.len() ==> validator_passes(#[trigger] fd.validators@[i], v)
}

/// Whether `e` is the error a field definition reports for a value that does
/// not fit: a type mismatch first, else the first failing constraint.
pub open spec fn field_error(fd: FieldDefinition, field: Seq<char>, v: Value, e: ValidationError) -> bool {
    if !accepts(fd.field_type, v) {
        e matches ValidationError::TypeMismatch { field: f, expected, actual }
            && f@ == field && expected@ == field_type_name(fd.field_type) && actual@ == value_kind(v)
    } else {
        exists|i: int| 0 <= i < fd.validators@.len() && !validator_passes(#[trigger] fd.validators@[i], v)
            && (forall|j: int| 0 <= j < i ==> validator_passes(#[trigger] fd.validators@[j], v))
            && validator_error(fd.validators@[i], field, v, e)
    }
}

/// Whether a document's field `name` satisfies its definition.
pub open spec fn entry_passes(name: Seq<char>, fd: FieldDefinition, doc: Document) -> bool {
    match get_field(doc.fields@, name) {
        None => !fd.required,
        Some(v) => field_passes(fd, v),
    }
}

/// Whether `e` is the error reported for the field `name` of a document.
pub open spec fn entry_error(name: Seq<char>, fd: FieldDefinition, doc: Document, e: ValidationError) -> bool {
    match get_field(doc.fields@, name) {
        None => e matches ValidationError::RequiredFieldMissing(f) && f@ == name,
        Some(v) => field_error(fd, name, v, e),
    }
}

impl FieldType {
    /// Whether the type accepts `value`.
    #[verifier::loop_isolation(false)]
    pub fn is_compatible(&self, value: &Value) -> (r: bool)
        ensures
            r == accepts(*self, *value),
        decreases self,
    {
        match (self, value) {
            (FieldType::String { .. }, Value::String(_)) => true,
            (FieldType::Int32, Value::Int32(_)) => true,
            (FieldType::Int64, Value::Int64(_)) => true,
            (FieldType::Int64, Value::Int32(_)) => true,
            (FieldType::Float64, Value::Int32(_)) => true,
            (FieldType::Float64, Value::Int64(_)) => true,
            (FieldType::Boolean, Value::Bool(_)) => true,
            (FieldType::Date, Value::DateTime(_)) => true,
            (FieldType::Binary, Value::Binary(_)) => true,
            (FieldType::ObjectId, Value::ObjectId(_)) => true,
            (FieldType::Array { item_type }, Value::Array(arr)) => {
                let mut i: usize = 0;
                while i < arr.len()
                    invariant
                        i <= arr@.len(),
                        forall|j: int| 0 <= j < i ==> accepts(**item_type, #[trigger] arr@[j]),
                    decreases arr@.len() - i,
                {
                    if !item_type.is_compatible(&arr[i]) {
                        return false;
                    }
                    i = i + 1;
                }
                true
            },
            (FieldType::Object { fields }, Value::Object(obj)) => {
                let mut i: usize = 0;
                while i < fields.len()
                    invariant
                        i <= fields@.len(),
                        forall|j: int| 0 <= j < i ==> {
                            let (name, def) = #[trigger] fields@[j];
                            &&& def.required ==> get_field(obj@, name@) is Some
                            &&& get_field(obj@, name@) matches Some(x) ==> accepts(def.field_type, x)
                        },
                    decreases fields@.len() - i,
                {
                    let (name, def) = &fields[i];
                    let found = map_get(obj, name.as_str());
                    if def.required && found.is_none() {
                        return false;
                    }
                    match found {
                        Some(v) => {
                            if !def.field_type.is_compatible(v) {
                                return false;
                            }
                        },
                        None => {},
                    }
                    i = i + 1;
                }
                true
            },
            (FieldType::Reference { .. }, Value::ObjectId(_)) => true,
            (FieldType::Any, _) => true,
            _ => false,
        }
    }

    /// The name of the type's kind.
    pub fn name(&self) -> (r: &'static str)
        ensures
            r@ == field_type_name(*self),
    {
        proof {
            reveal_strlit("String");
            reveal_strlit("Int32");
            reveal_strlit("Int64");
            reveal_strlit("Float64");
            reveal_strlit("Boolean");
            reveal_strlit("Date");
            reveal_strlit("Binary");
            reveal_strlit("ObjectId");
            reveal_strlit("Array");
            reveal_strlit("Object");
            reveal_strlit("Reference");
            reveal_strlit("Any");
        }
        match self {
            FieldType::String { .. } => "String",
            FieldType::Int32 => "Int32",
            FieldType::Int64 => "Int64",
            FieldType::Float64 => "Float64",
            FieldType::Boolean => "Boolean",
            FieldType::Date => "Date",
            FieldType::Binary => "Binary",
            FieldType::ObjectId => "ObjectId",
            FieldType::Array { .. } => "Array",
            FieldType::Object { .. } => "Object",
            FieldType::Reference { .. } => "Reference",
            FieldType::Any => "Any",
        }
    }
}

/// The name of a value's kind.
pub fn value_kind_name(v: &Value) -> (r: &'static str)
    ensures
        r@ == value_kind(*v),
{
    match v {
        Value::Null => "Null",
        Value::Bool(_) => "Bool",
        Value::Int32(_) => "Int32",
        Value::Int64(_) => "Int64",
        Value::String(_) => "String",
        Value::Binary(_) => "Binary",
        Value::DateTime(_) => "DateTime",
        Value::ObjectId(_) => "ObjectId",
        Value::Array(_) => "Array",
        Value::Object(_) => "Object",
    }
}

/// Copies of values.
fn copy_values(vs: &Vec<Value>) -> (r: Vec<Value>)
    ensures
        model_seq(r@) == model_seq(vs@),
{
    let mut out: Vec<Value> = Vec::new();
    let mut i: usize = 0;
    while i < vs.len()
        invariant
            i <= vs@.len(),
            out@.len() == i,
            forall|j: int| 0 <= j < i ==> same_value(#[trigger] out@[j], vs@[j]),
        decreases vs@.len() - i,
    {
        out.push(vs[i].deep_clone());
        i = i + 1;
    }
    proof {
        lemma_model_seq(out@);
        lemma_model_seq(vs@);
        assert(model_seq(out@) =~= model_seq(vs@));
    }
    out
}

impl Validator {
    /// Checks `value`, the value of `field_name`, against the constraint.
    pub fn validate(&self, field_name: &str, value: &Value) -> (r: Result<(), ValidationError>)
        ensures
            r is Ok <==> validator_passes(*self, *value),
            r matches Err(e) ==> validator_error(*self, field_name@, *value, e),
    {
        match self {
            Validator::Min(min) => {
                let n = match value {
                    Value::Int32(x) => Some(*x as i64),
                    Value::Int64(x) => Some(*x),
                    _ => None,
                };
                if let Some(num) = n {
                    if num < *min {
                        return Err(ValidationError::MinValueViolation { field: field_name.to_owned(), min: *min, actual: num });
                    }
                }
                Ok(())
            },
            Validator::Max(max) => {
                let n = match value {
                    Value::Int32(x) => Some(*x as i64),
                    Value::Int64(x) => Some(*x),
                    _ => None,
                };
                if let Some(num) = n {
                    if num > *max {
                        return Err(ValidationError::MaxValueViolation { field: field_name.to_owned(), max: *max, actual: num });
                    }
                }
                Ok(())
            },
            Validator::MinLength(min_len) => {
                let len = match value {
                    Value::String(s) => s.as_str().as_bytes().len(),
                    Value::Array(a) => a.len(),
                    Value::Binary(b) => b.len(),
                    _ => {
                        return Ok(());
                    },
                };
                if len < *min_len {
                    return Err(ValidationError::MinLengthViolation { field: field_name.to_owned(), min: *min_len, actual: len });
                }
                Ok(())
            },
            Validator::MaxLength(max_len) => {
                let len = match value {
                    Value::String(s) => s.as_str().as_bytes().len(),
                    Value::Array(a) => a.len(),
                    Value::Binary(b) => b.len(),
                    _ => {
                        return Ok(());
                    },
                };
                if len > *max_len {
                    return Err(ValidationError::MaxLengthViolation { field: field_name.to_owned(), max: *max_len, actual: len });
                }
                Ok(())
            },
            Validator::Regex(pattern) => {
                if let Value::String(s) = value {
                    match regex_is_match(pattern.as_str(), s.as_str()) {
                        Err(e) => {
                            return Err(ValidationError::InvalidRegex { pattern: pattern.clone(), error: e });
                        },
                        Ok(matched) => {
                            if !matched {
                                return Err(ValidationError::RegexMismatch {
                                    field: field_name.to_owned(),
                                    pattern: pattern.clone(),
                                    value: s.clone(),
                                });
                            }
                        },
                    }
                }
                Ok(())
            },
            Validator::Enum(allowed) => {
                if !contains_value(allowed, value) {
                    return Err(ValidationError::EnumViolation {
                        field: field_name.to_owned(),
                        allowed: copy_values(allowed),
                        actual: value.deep_clone(),
                    });
                }
                Ok(())
            },
            Validator::Custom(_) => Ok(()),
        }
    }
}

impl FieldDefinition {
    /// An optional field of the given type with no default and no constraints.
    pub fn new(field_type: FieldType) -> (r: FieldDefinition)
        ensures
            r.field_type == field_type,
            !r.required && r.default is None && !r.unique && !r.indexed,
            r.validators@.len() == 0,
            !r.encrypted && r.encryption_key_id is None,
    {
        FieldDefinition {
            field_type,
            required: false,
            default: None,
            unique: false,
            indexed: false,
            validators: Vec::new(),
            encrypted: false,
            encryption_key_id: None,
        }
    }

    pub fn required(self) -> (r: FieldDefinition)
        ensures
            r == (FieldDefinition { required: true, ..self }),
    {
        FieldDefinition { required: true, ..self }
    }

    pub fn default_value(self, value: Value) -> (r: FieldDefinition)
        ensures
            r == (FieldDefinition { default: Some(value), ..self }),
    {
        FieldDefinition { default: Some(value), ..self }
    }

    pub fn unique(self) -> (r: FieldDefinition)
        ensures
            r == (FieldDefinition { unique: true, ..self }),
    {
        FieldDefinition { unique: true, ..self }
    }

    pub fn indexed(self) -> (r: FieldDefinition)
        ensures
            r == (FieldDefinition { indexed: true, ..self }),
    {
        FieldDefinition { indexed: true, ..self }
    }

    /// Appends a constraint.
    pub fn add_validator(self, validator: Validator) -> (r: FieldDefinition)
        ensures
            r.validators@ == self.validators@.push(validator),
            r.field_type == self.field_type,
            r.required == self.required && r.default == self.default && r.unique == self.unique,
            r.indexed == self.indexed && r.encrypted == self.encrypted && r.encryption_key_id == self.encryption_key_id,
    {
        let mut r = self;
        r.validators.push(validator);
        r
    }

    /// Checks `value`, the value of `field_name`: its type first, then each
    /// constraint in order; the first failure is reported.
    pub fn validate(&self, field_name: &str, value: &Value) -> (r: Result<(), ValidationError>)
        ensures
            r is Ok <==> field_passes(*self, *value),
            r matches Err(e) ==> field_error(*self, field_name@, *value, e),
    {
        if !self.field_type.is_compatible(value) {
            return Err(ValidationError::TypeMismatch {
                field: field_name.to_owned(),
                expected: String::from_str(self.field_type.name()),
                actual: String::from_str(value_kind_name(value)),
            });
        }
        let mut i: usize = 0;
        while i < self.validators.len()
            invariant
                i <= self.validators@.len(),
                accepts(self.field_type, *value),
                forall|j: int| 0 <= j < i ==> validator_passes(#[trigger] self.validators@[j], *value),
            decreases self.validators@.len() - i,
        {
            match self.validators[i].validate(field_name, value) {
                Err(e) => {
                    proof {
                        assert(!validator_passes(self.validators@[i as int], *value));
                    }
                    return Err(e);
                },
                Ok(()) => {},
            }
            i = i + 1;
        }
        Ok(())
    }
}

/// A collection schema.
#[derive(Debug)]
pub struct Schema {
    pub version: u32,
    /// Field definitions, in increasing name order.
    pub fields: Vec<(String, FieldDefinition)>,
    pub indexes: Vec<IndexDefinition>,
    pub cache_config: CollectionCacheConfig,
    /// Optional JSON Schema text.
    pub validation: Option<String>,
}

impl Schema {
    /// An empty first-version schema.
    pub fn new() -> (r: Schema)
        ensures
            r.version == 1,
            r.fields@.len() == 0,
            r.indexes@.len() == 0,
            r.cache_config.strategy == CacheStrategy::NoCache,
            r.validation is None,
    {
        Schema {
            version: 1,
            fields: Vec::new(),
            indexes: Vec::new(),
            cache_config: CollectionCacheConfig::default(),
            validation: None,
        }
    }

    /// Defines (or redefines) the field `name`.
    pub fn add_field(&mut self, name: String, field_def: FieldDefinition)
        requires
            keys_sorted(old(self).fields@),
        ensures
            keys_sorted(final(self).fields@),
            get_field(final(self).fields@, name@) == Some(field_def),
            forall|k: Seq<char>| k != name@ ==> get_field(final(self).fields@, k) == get_field(old(self).fields@, k),
            final(self).version == old(self).version,
    {
        map_insert(&mut self.fields, name, field_def);
    }

    /// Adds an index definition.
    pub fn add_index(&mut self, index_def: IndexDefinition)
        ensures
            final(self).indexes@ == old(self).indexes@.push(index_def),
            final(self).fields@ == old(self).fields@,
    {
        self.indexes.push(index_def);
    }

    /// Checks a document: each defined field in name order, a missing
    /// required field or a value that does not fit being reported for the
    /// first field that fails. Fields the schema does not define are allowed.
    pub fn validate(&self, doc: &Document) -> (r: Result<(), ValidationError>)
        ensures
            r is Ok <==> forall|i: int| 0 <= i < self.fields@.len()
                ==> entry_passes(self.fields@[i].0@, #[trigger] self.fields@[i].1, *doc),
            r matches Err(e) ==> exists|i: int| 0 <= i < self.fields@.len()
                && !entry_passes(self.fields@[i].0@, #[trigger] self.fields@[i].1, *doc)
                && (forall|j: int| 0 <= j < i ==> entry_passes(self.fields@[j].0@, #[trigger] self.fields@[j].1, *doc))
                && entry_error(self.fields@[i].0@, self.fields@[i].1, *doc, e),
    {
        let mut i: usize = 0;
        while i < self.fields.len()
            invariant
                i <= self.fields@.len(),
                forall|j: int| 0 <= j < i ==> entry_passes(self.fields@[j].0@, #[trigger] self.fields@[j].1, *doc),
            decreases self.fields@.len() - i,
        {
            let (name, def) = &self.fields[i];
            match doc.get(name.as_str()) {
                None => {
                    if def.required {
                        return Err(ValidationError::RequiredFieldMissing(name.clone()));
                    }
                },
                Some(v) => {
                    match def.validate(name.as_str(), v) {
                        Err(e) => {
                            return Err(e);
                        },
                        Ok(()) => {},
                    }
                },
            }
            i = i + 1;
        }
        Ok(())
    }

    /// Gives each defined field that the document lacks its default value,
    /// if it has one.
    pub fn apply_defaults(&self, doc: &mut Document) -> (r: Result<(), ValidationError>)
        requires
            old(doc).wf(),
        ensures
            r is Ok,
            final(doc).wf(),
            final(doc).id == old(doc).id,
            forall|k: Seq<char>| #[trigger] get_field(old(doc).fields@, k) is Some
                ==> get_field(final(doc).fields@, k) == get_field(old(doc).fields@, k),
            forall|i: int| 0 <= i < self.fields@.len() && get_field(old(doc).fields@, self.fields@[i].0@) is None
                && (#[trigger] self.fields@[i].1).default is None && keys_sorted(self.fields@)
                ==> get_field(final(doc).fields@, self.fields@[i].0@) is None,
            forall|i: int| 0 <= i < self.fields@.len() && get_field(old(doc).fields@, self.fields@[i].0@) is None
                && (#[trigger] self.fields@[i].1).default is Some && keys_sorted(self.fields@)
                ==> (get_field(final(doc).fields@, self.fields@[i].0@) matches Some(x)
                    && same_value(x, self.fields@[i].1.default.unwrap())),
    {
        let ghost orig = doc.fields@;
        let mut i: usize = 0;
        while i < self.fields.len()
            invariant
                i <= self.fields@.len(),
                doc.wf(),
                doc.id == old(doc).id,
                forall|k: Seq<char>| #[trigger] get_field(orig, k) is Some ==> get_field(doc.fields@, k) == get_field(orig, k),
                forall|k: Seq<char>| get_field(orig, k) is None && #[trigger] get_field(doc.fields@, k) is Some
                    ==> exists|j: int| 0 <= j < i && self.fields@[j].0@ == k && self.fields@[j].1.default is Some,
                keys_sorted(self.fields@) ==> forall|j: int| 0 <= j < i && get_field(orig, self.fields@[j].0@) is None
                    && (#[trigger] self.fields@[j].1).default is Some
                    ==> (get_field(doc.fields@, self.fields@[j].0@) matches Some(x)
                        && same_value(x, self.fields@[j].1.default.unwrap())),
                keys_sorted(self.fields@) ==> forall|j: int| 0 <= j < i && get_field(orig, self.fields@[j].0@) is None
                    && (#[trigger] self.fields@[j].1).default is None
                    ==> get_field(doc.fields@, self.fields@[j].0@) is None,
            decreases self.fields@.len() - i,
        {
            let (name, def) = &self.fields[i];
            proof {
                if keys_sorted(self.fields@) {
                    assert forall|j: int| 0 <= j < i implies #[trigger] self.fields@[j].0@ != name@ by {
                        if self.fields@[j].0@ == name@ {
                            lemma_sorted_unique(self.fields@, i as int, j);
                        }
                    }
                }
            }
            if !doc.contains_key(name.as_str()) {
                match &def.default {
                    Some(d) => {
                        doc.insert(name.clone(), d.deep_clone());
                    },
                    None => {},
                }
            }
            i = i + 1;
        }
        Ok(())
    }
}

impl Default for Schema {
    fn default() -> (r: Schema)
        ensures
            r.version == 1,
            r.fields@.len() == 0,
            r.indexes@.len() == 0,
    {
        Schema::new()
    }
}

} // verus!

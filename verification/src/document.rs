//! Documents and the values they hold.
//!
//! A document is an identifier plus an ordered map from field names to
//! values; the map is kept as a vector of entries whose keys are strictly
//! increasing in string order, so that iterating it visits fields the way a
//! `BTreeMap` would.
use vstd::prelude::*;
use vstd::utf8::*;
use crate::util::{Order, str_order_spec, str_eq, bytes_order, lemma_lex_order_equal};
use crate::sorted_map::{key_is, lookup, get_field, keys_sorted, lemma_lookup_at, lemma_lookup_none, find_entry, map_insert, map_get};

verus! {

broadcast use vstd::std_specs::vec::axiom_vec_index_decreases;

/// A document value. Objects hold their entries sorted by key.
#[derive(Debug)]
pub enum Value {
    Null,
    Bool(bool),
    Int32(i32),
    Int64(i64),
    String(String),
    Binary(Vec<u8>),
    /// Milliseconds since the Unix epoch.
    DateTime(i64),
    ObjectId(Vec<u8>),
    Array(Vec<Value>),
    Object(Vec<(String, Value)>),
}

/// The mathematical content of a [`Value`]: two values are equal exactly
/// when their models are.
pub enum ValueModel {
    Null,
    Bool(bool),
    Int32(i32),
    Int64(i64),
    Str(Seq<char>),
    Binary(Seq<u8>),
    DateTime(i64),
    ObjectId(Seq<u8>),
    Array(Seq<ValueModel>),
    Object(Seq<(Seq<char>, ValueModel)>),
}

pub open spec fn model_seq(s: Seq<Value>) -> Seq<ValueModel>
    decreases s,
{
    if s.len() == 0 {
        Seq::empty()
    } else {
        seq![model_of(s[0])] + model_seq(s.drop_first())
    }
}

pub open spec fn model_entries(s: Seq<(String, Value)>) -> Seq<(Seq<char>, ValueModel)>
    decreases s,
{
    if s.len() == 0 {
        Seq::empty()
    } else {
        seq![(s[0].0@, model_of(s[0].1))] + model_entries(s.drop_first())
    }
}

pub open spec fn model_of(v: Value) -> ValueModel
    decreases v,
{
    match v {
        Value::Null => ValueModel::Null,
        Value::Bool(b) => ValueModel::Bool(b),
        Value::Int32(i) => ValueModel::Int32(i),
        Value::Int64(i) => ValueModel::Int64(i),
        Value::String(s) => ValueModel::Str(s@),
        Value::Binary(b) => ValueModel::Binary(b@),
        Value::DateTime(t) => ValueModel::DateTime(t),
        Value::ObjectId(b) => ValueModel::ObjectId(b@),
        Value::Array(a) => ValueModel::Array(model_seq(a@)),
        Value::Object(o) => ValueModel::Object(model_entries(o@)),
    }
}

/// The model of a list of values has one model per value, in order.
pub proof fn lemma_model_seq(s: Seq<Value>)
    ensures
        model_seq(s).len() == s.len(),
        forall|i: int| 0 <= i < s.len() ==> #[trigger] model_seq(s)[i] == model_of(s[i]),
    decreases s.len(),
{
    if s.len() > 0 {
        lemma_model_seq(s.drop_first());
        assert forall|i: int| 0 <= i < s.len() implies #[trigger] model_seq(s)[i] == model_of(
            s[i],
        ) by {
            if i > 0 {
                assert(s.drop_first()[i - 1] == s[i]);
            }
        }
    }
}

/// The model of an object's entries holds each key's text and its value's
/// model, in order.
pub proof fn lemma_model_entries(s: Seq<(String, Value)>)
    ensures
        model_entries(s).len() == s.len(),
        forall|i: int|
            0 <= i < s.len() ==> #[trigger] model_entries(s)[i] == (s[i].0@, model_of(s[i].1)),
    decreases s.len(),
{
    if s.len() > 0 {
        lemma_model_entries(s.drop_first());
        assert forall|i: int| 0 <= i < s.len() implies #[trigger] model_entries(s)[i] == (
            s[i].0@,
            model_of(s[i].1),
        ) by {
            if i > 0 {
                assert(s.drop_first()[i - 1] == s[i]);
            }
        }
    }
}

/// Two values are equal (the equality that `==` on values means).
pub open spec fn same_value(a: Value, b: Value) -> bool {
    model_of(a) == model_of(b)
}

/// `s` holds a value equal to `v`.
pub open spec fn seq_has_value(s: Seq<Value>, v: Value) -> bool {
    exists|i: int| 0 <= i < s.len() && same_value(#[trigger] s[i], v)
}

impl Value {
    /// The string inside a `String` value.
    pub fn as_str(&self) -> (r: Option<&str>)
        ensures
            match *self {
                Value::String(s) => r matches Some(t) && t@ == s@,
                _ => r is None,
            },
    {
        match self {
            Value::String(s) => Some(s.as_str()),
            _ => None,
        }
    }

    /// The integer inside an `Int32` or `Int64` value, widened to 64 bits.
    pub fn as_i64(&self) -> (r: Option<i64>)
        ensures
            r == match *self {
                Value::Int32(i) => Some(i as i64),
                Value::Int64(i) => Some(i),
                _ => None::<i64>,
            },
    {
        match self {
            Value::Int32(i) => Some(*i as i64),
            Value::Int64(i) => Some(*i),
            _ => None,
        }
    }

    /// The boolean inside a `Bool` value.
    pub fn as_bool(&self) -> (r: Option<bool>)
        ensures
            r == match *self {
                Value::Bool(b) => Some(b),
                _ => None::<bool>,
            },
    {
        match self {
            Value::Bool(b) => Some(*b),
            _ => None,
        }
    }

    /// A value equal to this one.
    #[verifier::loop_isolation(false)]
    pub fn deep_clone(&self) -> (r: Value)
        ensures
            same_value(r, *self),
        decreases self,
    {
        match self {
            Value::Null => Value::Null,
            Value::Bool(b) => Value::Bool(*b),
            Value::Int32(i) => Value::Int32(*i),
            Value::Int64(i) => Value::Int64(*i),
            Value::String(s) => Value::String(s.clone()),
            Value::Binary(b) => Value::Binary(b.clone()),
            Value::DateTime(t) => Value::DateTime(*t),
            Value::ObjectId(b) => Value::ObjectId(b.clone()),
            Value::Array(a) => {
                let mut out: Vec<Value> = Vec::new();
                let mut i: usize = 0;
                while i < a.len()
                    invariant
                        i <= a.len(),
                        out.len() == i,
                        forall|j: int| 0 <= j < i ==> same_value(#[trigger] out@[j], a@[j]),
                    decreases a.len() - i,
                {
                    let c = a[i].deep_clone();
                    out.push(c);
                    i = i + 1;
                }
                proof {
                    lemma_model_seq(out@);
                    lemma_model_seq(a@);
                    assert(model_seq(out@) =~= model_seq(a@));
                }
                Value::Array(out)
            },
            Value::Object(o) => {
                let mut out: Vec<(String, Value)> = Vec::new();
                let mut i: usize = 0;
                while i < o.len()
                    invariant
                        i <= o.len(),
                        out.len() == i,
                        forall|j: int|
                            0 <= j < i ==> (#[trigger] out@[j]).0@ == o@[j].0@ && same_value(
                                out@[j].1,
                                o@[j].1,
                            ),
                    decreases o.len() - i,
                {
                    let k = o[i].0.clone();
                    let c = o[i].1.deep_clone();
                    out.push((k, c));
                    i = i + 1;
                }
                proof {
                    lemma_model_entries(out@);
                    lemma_model_entries(o@);
                    assert(model_entries(out@) =~= model_entries(o@));
                }
                Value::Object(out)
            },
        }
    }
}

/// Decides whether two values are equal.
#[verifier::loop_isolation(false)]
pub fn value_eq(a: &Value, b: &Value) -> (r: bool)
    ensures
        r == same_value(*a, *b),
    decreases a,
{
    match (a, b) {
        (Value::Null, Value::Null) => true,
        (Value::Bool(x), Value::Bool(y)) => *x == *y,
        (Value::Int32(x), Value::Int32(y)) => *x == *y,
        (Value::Int64(x), Value::Int64(y)) => *x == *y,
        (Value::String(x), Value::String(y)) => str_eq(x.as_str(), y.as_str()),
        (Value::Binary(x), Value::Binary(y)) => bytes_eq(x.as_slice(), y.as_slice()),
        (Value::DateTime(x), Value::DateTime(y)) => *x == *y,
        (Value::ObjectId(x), Value::ObjectId(y)) => bytes_eq(x.as_slice(), y.as_slice()),
        (Value::Array(x), Value::Array(y)) => {
            proof {
                lemma_model_seq(x@);
                lemma_model_seq(y@);
            }
            if x.len() != y.len() {
                return false;
            }
            let mut i: usize = 0;
            while i < x.len()
                invariant
                    x.len() == y.len(),
                    i <= x.len(),
                    forall|j: int| 0 <= j < i ==> same_value(#[trigger] x@[j], y@[j]),
                decreases x.len() - i,
            {
                if !value_eq(&x[i], &y[i]) {
                    proof {
                        assert(model_seq(x@)[i as int] != model_seq(y@)[i as int]);
                    }
                    return false;
                }
                i = i + 1;
            }
            proof {
                assert(model_seq(x@) =~= model_seq(y@));
            }
            true
        },
        (Value::Object(x), Value::Object(y)) => {
            proof {
                lemma_model_entries(x@);
                lemma_model_entries(y@);
            }
            if x.len() != y.len() {
                return false;
            }
            let mut i: usize = 0;
            while i < x.len()
                invariant
                    x.len() == y.len(),
                    i <= x.len(),
                    forall|j: int|
                        0 <= j < i ==> (#[trigger] x@[j]).0@ == y@[j].0@ && same_value(
                            x@[j].1,
                            y@[j].1,
                        ),
                decreases x.len() - i,
            {
                let same_key = str_eq(x[i].0.as_str(), y[i].0.as_str());
                if !same_key || !value_eq(&x[i].1, &y[i].1) {
                    proof {
                        assert(model_entries(x@)[i as int] != model_entries(y@)[i as int]);
                    }
                    return false;
                }
                i = i + 1;
            }
            proof {
                assert(model_entries(x@) =~= model_entries(y@));
            }
            true
        },
        _ => false,
    }
}

/// Byte-slice equality.
pub fn bytes_eq(a: &[u8], b: &[u8]) -> (r: bool)
    ensures
        r == (a@ == b@),
{
    let c = bytes_order(a, b);
    proof {
        lemma_lex_order_equal(a@, b@);
    }
    c == Order::Equal
}

/// Whether `values` holds a value equal to `v`.
pub fn contains_value(values: &Vec<Value>, v: &Value) -> (r: bool)
    ensures
        r == seq_has_value(values@, *v),
{
    let mut i: usize = 0;
    while i < values.len()
        invariant
            i <= values.len(),
            forall|j: int| 0 <= j < i ==> !same_value(#[trigger] values@[j], *v),
        decreases values.len() - i,
    {
        if value_eq(&values[i], v) {
            return true;
        }
        i = i + 1;
    }
    false
}

/// Index of the first `.` byte at or after `from`, or the length if none.
pub open spec fn first_dot(pb: Seq<u8>, from: int) -> int
    decreases pb.len() - from,
{
    if from >= pb.len() {
        pb.len() as int
    } else if pb[from] == 46u8 {
        from
    } else {
        first_dot(pb, from + 1)
    }
}

/// Where the first dot at or after `from` stands: no dot before it, and a
/// dot there unless it is the end.
pub proof fn lemma_first_dot(pb: Seq<u8>, from: int)
    requires
        0 <= from <= pb.len(),
    ensures
        from <= first_dot(pb, from) <= pb.len(),
        first_dot(pb, from) < pb.len() ==> pb[first_dot(pb, from)] == 46u8,
        forall|k: int| from <= k < first_dot(pb, from) ==> pb[k] != 46u8,
    decreases pb.len() - from,
{
    if from < pb.len() && pb[from] != 46u8 {
        lemma_first_dot(pb, from + 1);
    }
}

/// Follows a dotted path (bytes `pb` from offset `from`) through nested
/// objects: each segment names a field, and every segment but the last must
/// lead to an object.
pub open spec fn path_lookup(fs: Seq<(String, Value)>, pb: Seq<u8>, from: int) -> Option<Value>
    decreases pb.len() - from,
{
    if 0 <= from <= pb.len() {
        let d = first_dot(pb, from);
        proof {
            lemma_first_dot(pb, from);
        }
        if d >= pb.len() {
            lookup(fs, pb.subrange(from, pb.len() as int))
        } else {
            match lookup(fs, pb.subrange(from, d)) {
                Some(Value::Object(inner)) => path_lookup(inner@, pb, d + 1),
                _ => None,
            }
        }
    } else {
        None
    }
}

/// The value that the dotted path `path` leads to in the fields `fs`.
pub open spec fn get_path(fs: Seq<(String, Value)>, path: Seq<char>) -> Option<Value> {
    path_lookup(fs, encode_utf8(path), 0)
}

/// Follows a dotted path through nested objects, starting at `fields`.
pub fn lookup_path<'a>(fields: &'a Vec<(String, Value)>, path: &str) -> (r: Option<&'a Value>)
    ensures
        match r {
            Some(v) => get_path(fields@, path@) == Some(*v),
            None => get_path(fields@, path@) is None,
        },
{
    let pb = path.as_bytes();
    let ghost full = pb@;
    let mut cur: &'a Vec<(String, Value)> = fields;
    let mut start: usize = 0;
    loop
        invariant
            pb@ == full,
            full == encode_utf8(path@),
            start <= pb.len(),
            path_lookup(fields@, full, 0) == path_lookup(cur@, full, start as int),
        decreases pb.len() - start,
    {
        let mut d: usize = start;
        while d < pb.len() && pb[d] != 46u8
            invariant
                start <= d <= pb.len(),
                first_dot(full, start as int) == first_dot(full, d as int),
                pb@ == full,
            decreases pb.len() - d,
        {
            d = d + 1;
        }
        proof {
            lemma_first_dot(full, start as int);
        }
        if d >= pb.len() {
            match find_entry(cur, pb, start, pb.len()) {
                Some(i) => {
                    proof {
                        lemma_lookup_at(cur@, full.subrange(start as int, full.len() as int), i as int);
                    }
                    return Some(&cur[i].1);
                },
                None => {
                    proof {
                        lemma_lookup_none(cur@, full.subrange(start as int, full.len() as int));
                    }
                    return None;
                },
            }
        }
        match find_entry(cur, pb, start, d) {
            Some(i) => {
                proof {
                    lemma_lookup_at(cur@, full.subrange(start as int, d as int), i as int);
                }
                match &cur[i].1 {
                    Value::Object(inner) => {
                        cur = inner;
                        start = d + 1;
                    },
                    _ => {
                        return None;
                    },
                }
            },
            None => {
                proof {
                    lemma_lookup_none(cur@, full.subrange(start as int, d as int));
                }
                return None;
            },
        }
    }
}

/// Identifier of a document.
#[derive(Debug, Clone, Copy, PartialEq, Eq, Structural)]
pub struct DocumentId {
    pub value: u128,
}

impl DocumentId {
    /// The identifier with the given numeric value.
    pub fn from_u128(value: u128) -> (r: DocumentId)
        ensures
            r.value == value,
    {
        DocumentId { value }
    }
}

/// A document: an identifier and its fields, sorted by name.
#[derive(Debug)]
pub struct Document {
    pub id: DocumentId,
    pub fields: Vec<(String, Value)>,
}

impl Document {
    /// The document's fields are kept in strictly increasing key order.
    pub open spec fn wf(&self) -> bool {
        keys_sorted(self.fields@)
    }

    /// An empty document with the given identifier.
    pub fn with_id(id: DocumentId) -> (r: Document)
        ensures
            r.id == id,
            r.fields@.len() == 0,
            r.wf(),
    {
        Document { id, fields: Vec::new() }
    }

    /// The value of the field named `key`.
    pub fn get(&self, key: &str) -> (r: Option<&Value>)
        ensures
            match r {
                Some(v) => get_field(self.fields@, key@) == Some(*v),
                None => get_field(self.fields@, key@) is None,
            },
    {
        map_get(&self.fields, key)
    }

    /// The value that a dotted path such as `address.city` leads to.
    pub fn get_by_path(&self, path: &str) -> (r: Option<&Value>)
        ensures
            match r {
                Some(v) => get_path(self.fields@, path@) == Some(*v),
                None => get_path(self.fields@, path@) is None,
            },
    {
        lookup_path(&self.fields, path)
    }

    /// Whether the document has a field named `key`.
    pub fn contains_key(&self, key: &str) -> (r: bool)
        ensures
            r == get_field(self.fields@, key@) is Some,
    {
        self.get(key).is_some()
    }

    /// Sets the field `key` to `value`, replacing an earlier value.
    pub fn insert(&mut self, key: String, value: Value)
        requires
            old(self).wf(),
        ensures
            final(self).wf(),
            final(self).id == old(self).id,
            get_field(final(self).fields@, key@) == Some(value),
            forall|k: Seq<char>|
                k != key@ ==> get_field(final(self).fields@, k) == get_field(old(self).fields@, k),
    {
        map_insert(&mut self.fields, key, value);
    }

}

} // verus!

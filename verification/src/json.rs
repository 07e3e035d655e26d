//! A JSON document as plain values, with the lookups that the request
//! handling performs (`get`, `as_str`, `as_array`, ...), each stated over the
//! document's mathematical view.
use vstd::prelude::*;
use crate::text::str_eq;

verus! {

/// A JSON value. Integers are kept exactly; any other number is carried as
/// its decimal text. Object fields keep the order in which they were built.
#[derive(Debug, PartialEq)]
pub enum Json {
    Null,
    Bool(bool),
    Int(i128),
    Float(String),
    Str(String),
    Array(Vec<Json>),
    Object(Vec<(String, Json)>),
}

/// The mathematical value of a [`Json`] document.
pub enum JsonV {
    Null,
    Bool(bool),
    Int(int),
    Float(Seq<char>),
    Str(Seq<char>),
    Array(Seq<JsonV>),
    Object(Seq<(Seq<char>, JsonV)>),
}

pub open spec fn view_items(s: Seq<Json>) -> Seq<JsonV>
    decreases s,
{
    if s.len() == 0 {
        Seq::empty()
    } else {
        view_items(s.drop_last()).push(view_json(s.last()))
    }
}

pub open spec fn view_fields(s: Seq<(String, Json)>) -> Seq<(Seq<char>, JsonV)>
    decreases s,
{
    if s.len() == 0 {
        Seq::empty()
    } else {
        view_fields(s.drop_last()).push((s.last().0@, view_json(s.last().1)))
    }
}

pub open spec fn view_json(j: Json) -> JsonV
    decreases j,
{
    match j {
        Json::Null => JsonV::Null,
        Json::Bool(b) => JsonV::Bool(b),
        Json::Int(i) => JsonV::Int(i as int),
        Json::Float(s) => JsonV::Float(s@),
        Json::Str(s) => JsonV::Str(s@),
        Json::Array(v) => JsonV::Array(view_items(v@)),
        Json::Object(v) => JsonV::Object(view_fields(v@)),
    }
}

impl View for Json {
    type V = JsonV;

    open spec fn view(&self) -> JsonV {
        view_json(*self)
    }
}

/// The value of the first field named `k`, from position `i` on.
pub open spec fn lookup(fs: Seq<(Seq<char>, JsonV)>, k: Seq<char>, i: int) -> Option<JsonV>
    decreases fs.len() - i,
{
    if i < 0 || i >= fs.len() {
        None
    } else if fs[i].0 == k {
        Some(fs[i].1)
    } else {
        lookup(fs, k, i + 1)
    }
}

/// `Value::get` with a string key: the field of an object, nothing otherwise.
pub open spec fn jget(j: JsonV, k: Seq<char>) -> Option<JsonV> {
    match j {
        JsonV::Object(fs) => lookup(fs, k, 0),
        _ => None,
    }
}

/// `Option::and_then(|v| v.get(k))`.
pub open spec fn jget_opt(o: Option<JsonV>, k: Seq<char>) -> Option<JsonV> {
    match o {
        Some(j) => jget(j, k),
        None => None,
    }
}

/// `Option::and_then(|v| v.as_str())`.
pub open spec fn jstr(o: Option<JsonV>) -> Option<Seq<char>> {
    match o {
        Some(JsonV::Str(s)) => Some(s),
        _ => None,
    }
}

/// `Option::and_then(|v| v.as_array())`.
pub open spec fn jarr(o: Option<JsonV>) -> Option<Seq<JsonV>> {
    match o {
        Some(JsonV::Array(a)) => Some(a),
        _ => None,
    }
}

/// `Option::and_then(|v| v.get(i))` with an array index.
pub open spec fn jat(o: Option<JsonV>, i: int) -> Option<JsonV> {
    match o {
        Some(JsonV::Array(a)) => if 0 <= i < a.len() {
            Some(a[i])
        } else {
            None
        },
        _ => None,
    }
}

/// `Option::and_then(|v| v.as_i64())`.
pub open spec fn ji64(o: Option<JsonV>) -> Option<int> {
    match o {
        Some(JsonV::Int(n)) => if i64::MIN <= n <= i64::MAX {
            Some(n)
        } else {
            None
        },
        _ => None,
    }
}

/// `unwrap_or` on an optional string.
pub open spec fn or_str(o: Option<Seq<char>>, d: Seq<char>) -> Seq<char> {
    match o {
        Some(s) => s,
        None => d,
    }
}

/// The view of an optional borrowed document.
pub open spec fn oview(r: Option<&Json>) -> Option<JsonV> {
    match r {
        Some(j) => Some(j@),
        None => None,
    }
}

/// The views of a sequence of documents.
pub open spec fn jviews(s: Seq<Json>) -> Seq<JsonV> {
    s.map_values(|j: Json| j@)
}

pub proof fn lemma_view_items(s: Seq<Json>)
    ensures
        view_items(s) == jviews(s),
    decreases s.len(),
{
    if s.len() > 0 {
        lemma_view_items(s.drop_last());
        assert(view_items(s) =~= jviews(s));
    } else {
        assert(view_items(s) =~= jviews(s));
    }
}

pub proof fn lemma_view_fields(s: Seq<(String, Json)>)
    ensures
        view_fields(s).len() == s.len(),
        forall|i: int|
            0 <= i < s.len() ==> #[trigger] view_fields(s)[i] == (s[i].0@, s[i].1@),
    decreases s.len(),
{
    if s.len() > 0 {
        lemma_view_fields(s.drop_last());
    }
}

/// An owned copy of a string slice.
pub fn owned(s: &str) -> (r: String)
    ensures
        r@ == s@,
{
    String::from_str(s)
}

/// A string document.
pub fn jstring(s: &str) -> (r: Json)
    ensures
        r@ == JsonV::Str(s@),
{
    Json::Str(owned(s))
}

impl Json {
    /// `Value::get` with a string key.
    #[verifier::loop_isolation(false)]
    pub fn get(&self, key: &str) -> (r: Option<&Json>)
        ensures
            oview(r) == jget(self@, key@),
    {
        match self {
            Json::Object(fields) => {
                proof {
                    lemma_view_fields(fields@);
                }
                let ghost fs = view_fields(fields@);
                let mut i: usize = 0;
                while i < fields.len()
                    invariant
                        i <= fields.len(),
                        fs == view_fields(fields@),
                        fs.len() == fields@.len(),
                        forall|k: int|
                            0 <= k < fields@.len() ==> #[trigger] fs[k] == (
                                fields@[k].0@,
                                fields@[k].1@,
                            ),
                        lookup(fs, key@, 0) == lookup(fs, key@, i as int),
                    decreases fields.len() - i,
                {
                    assert(fs[i as int] == (fields@[i as int].0@, fields@[i as int].1@));
                    if str_eq(fields[i].0.as_str(), key) {
                        return Some(&fields[i].1);
                    }
                    i += 1;
                }
                None
            },
            _ => None,
        }
    }

    /// `Value::get` with an array index.
    pub fn get_index(&self, i: usize) -> (r: Option<&Json>)
        ensures
            oview(r) == jat(Some(self@), i as int),
    {
        match self {
            Json::Array(items) => {
                proof {
                    lemma_view_items(items@);
                }
                if i < items.len() {
                    Some(&items[i])
                } else {
                    None
                }
            },
            _ => None,
        }
    }

    /// `Value::as_str`.
    pub fn as_str(&self) -> (r: Option<&String>)
        ensures
            match r {
                Some(s) => jstr(Some(self@)) == Some(s@),
                None => jstr(Some(self@)) is None,
            },
    {
        match self {
            Json::Str(s) => Some(s),
            _ => None,
        }
    }

    /// `Value::as_array`.
    pub fn as_array(&self) -> (r: Option<&Vec<Json>>)
        ensures
            match r {
                Some(a) => jarr(Some(self@)) == Some(jviews(a@)),
                None => jarr(Some(self@)) is None,
            },
    {
        match self {
            Json::Array(items) => {
                proof {
                    lemma_view_items(items@);
                }
                Some(items)
            },
            _ => None,
        }
    }

    /// `Value::as_i64`.
    pub fn as_i64(&self) -> (r: Option<i64>)
        ensures
            match r {
                Some(n) => ji64(Some(self@)) == Some(n as int),
                None => ji64(Some(self@)) is None,
            },
    {
        match self {
            Json::Int(n) => {
                if i64::MIN as i128 <= *n && *n <= i64::MAX as i128 {
                    Some(*n as i64)
                } else {
                    None
                }
            },
            _ => None,
        }
    }

    /// `Value::is_null`.
    pub fn is_null(&self) -> (r: bool)
        ensures
            r == (self@ is Null),
    {
        match self {
            Json::Null => true,
            _ => false,
        }
    }

    /// `Value::is_string`.
    pub fn is_string(&self) -> (r: bool)
        ensures
            r == (self@ is Str),
    {
        match self {
            Json::Str(_) => true,
            _ => false,
        }
    }

    /// A copy of the document.
    #[verifier::loop_isolation(false)]
    pub fn clone_json(&self) -> (r: Json)
        ensures
            r@ == self@,
        decreases self,
    {
        match self {
            Json::Null => Json::Null,
            Json::Bool(b) => Json::Bool(*b),
            Json::Int(n) => Json::Int(*n),
            Json::Float(s) => Json::Float(s.clone()),
            Json::Str(s) => Json::Str(s.clone()),
            Json::Array(items) => {
                let mut out: Vec<Json> = Vec::new();
                let mut i: usize = 0;
                proof {
                    lemma_view_items(items@);
                }
                while i < items.len()
                    invariant
                        i <= items.len(),
                        jviews(out@) == jviews(items@).take(i as int),
                    decreases items.len() - i,
                {
                    proof {
                        vstd::std_specs::vec::axiom_vec_index_decreases(*items, i as int);
                        assert(decreases_to!(self => items[i as int]));
                    }
                    let c = items[i].clone_json();
                    out.push(c);
                    assert(jviews(out@) =~= jviews(items@).take(i + 1));
                    i += 1;
                }
                proof {
                    lemma_view_items(out@);
                    assert(jviews(items@).take(items@.len() as int) =~= jviews(items@));
                }
                Json::Array(out)
            },
            Json::Object(fields) => {
                let mut out: Vec<(String, Json)> = Vec::new();
                let mut i: usize = 0;
                proof {
                    lemma_view_fields(fields@);
                }
                while i < fields.len()
                    invariant
                        i <= fields.len(),
                        view_fields(fields@).len() == fields@.len(),
                        forall|k: int|
                            0 <= k < fields@.len() ==> #[trigger] view_fields(fields@)[k] == (
                                fields@[k].0@,
                                fields@[k].1@,
                            ),
                        view_fields(out@) == view_fields(fields@).take(i as int),
                    decreases fields.len() - i,
                {
                    proof {
                        vstd::std_specs::vec::axiom_vec_index_decreases(*fields, i as int);
                        assert(decreases_to!(self => fields[i as int].1));
                    }
                    let c = fields[i].1.clone_json();
                    let k = fields[i].0.clone();
                    let ghost prev = out@;
                    out.push((k, c));
                    assert(out@.drop_last() == prev);
                    assert(view_fields(out@) =~= view_fields(fields@).take(i + 1));
                    i += 1;
                }
                assert(view_fields(fields@).take(fields@.len() as int) =~= view_fields(fields@));
                Json::Object(out)
            },
        }
    }
}

/// A field holding a boolean.
pub fn bool_field(name: &str, b: bool) -> (r: (String, Json))
    ensures
        r.0@ == name@,
        r.1@ == JsonV::Bool(b),
{
    (owned(name), Json::Bool(b))
}

/// A field holding an integer.
pub fn int_field(name: &str, n: i128) -> (r: (String, Json))
    ensures
        r.0@ == name@,
        r.1@ == JsonV::Int(n as int),
{
    (owned(name), Json::Int(n))
}

/// An object of the fields `fields`.
pub fn object(fields: Vec<(String, Json)>) -> (r: Json)
    ensures
        r@ == JsonV::Object(view_fields(fields@)),
        view_fields(fields@).len() == fields@.len(),
        forall|i: int|
            0 <= i < fields@.len() ==> #[trigger] view_fields(fields@)[i] == (
                fields@[i].0@,
                fields@[i].1@,
            ),
{
    proof {
        lemma_view_fields(fields@);
    }
    Json::Object(fields)
}

} // verus!

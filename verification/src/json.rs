//! A JSON document model of the library's own, with its mathematical view.
//!
//! Reading and writing JSON text is done by `serde_json`, behind two trusted
//! wrappers; everything that inspects or builds a document is verified.

use vstd::prelude::*;
use crate::text::string_from;

verus! {

#[verifier::external_type_specification]
#[verifier::external_body]
pub struct ExNumber(serde_json::Number);

#[verifier::external_type_specification]
#[verifier::external_body]
pub struct ExValue(serde_json::Value);

/// A JSON document. Integers that fit an `i64` are held as `Int`; any other
/// number read from text is carried through as `serde_json` wrote it.
/// `UInt` holds a count built by the library that is too large for `Int`.
#[derive(Debug, PartialEq)]
pub enum JsonValue {
    Null,
    Bool(bool),
    Int(i64),
    UInt(u64),
    Num(serde_json::Number),
    Str(String),
    Array(Vec<JsonValue>),
    Object(Vec<(String, JsonValue)>),
}

/// The mathematical view of a JSON document.
#[verifier::ext_equal]
pub enum SJson {
    Null,
    Bool(bool),
    Int(i64),
    UInt(u64),
    Num(serde_json::Number),
    Str(Seq<char>),
    Array(Seq<SJson>),
    Object(Seq<(Seq<char>, SJson)>),
}

/// The mathematical view of a document.
pub open spec fn json_view(v: JsonValue) -> SJson
    decreases v,
{
    match v {
        JsonValue::Null => SJson::Null,
        JsonValue::Bool(b) => SJson::Bool(b),
        JsonValue::Int(i) => SJson::Int(i),
        JsonValue::UInt(u) => SJson::UInt(u),
        JsonValue::Num(n) => SJson::Num(n),
        JsonValue::Str(s) => SJson::Str(s@),
        JsonValue::Array(items) => SJson::Array(
            Seq::new(
                items@.len(),
                |i: int|
                    if 0 <= i < items@.len() {
                        json_view(items@[i])
                    } else {
                        SJson::Null
                    },
            ),
        ),
        JsonValue::Object(entries) => SJson::Object(
            Seq::new(
                entries@.len(),
                |i: int|
                    if 0 <= i < entries@.len() {
                        (entries@[i].0@, json_view(entries@[i].1))
                    } else {
                        (Seq::empty(), SJson::Null)
                    },
            ),
        ),
    }
}

impl View for JsonValue {
    type V = SJson;

    open spec fn view(&self) -> SJson {
        json_view(*self)
    }
}

/// The views of a sequence of documents.
pub open spec fn views(s: Seq<JsonValue>) -> Seq<SJson> {
    Seq::new(s.len(), |i: int| s[i]@)
}

pub open spec fn opt_view(r: Option<&JsonValue>) -> Option<SJson> {
    match r {
        Some(v) => Some(v@),
        None => None,
    }
}

/// The text of an optional string slice.
pub open spec fn opt_str_ref_view(o: Option<&str>) -> Option<Seq<char>> {
    match o {
        Some(s) => Some(s@),
        None => None,
    }
}

pub open spec fn opt_str_view(r: Option<&String>) -> Option<Seq<char>> {
    match r {
        Some(s) => Some(s@),
        None => None,
    }
}

// ---- Reading a view (the model of `Value::get`, `as_str`, ...) ----

/// Element `i` of an array (`Value::get` with an index).
pub open spec fn sget(o: Option<SJson>, i: int) -> Option<SJson> {
    match o {
        Some(SJson::Array(a)) => if 0 <= i < a.len() {
            Some(a[i])
        } else {
            None
        },
        _ => None,
    }
}

/// The elements of an array (`Value::as_array`).
pub open spec fn sarr(o: Option<SJson>) -> Option<Seq<SJson>> {
    match o {
        Some(SJson::Array(a)) => Some(a),
        _ => None,
    }
}

/// The text of a string (`Value::as_str`).
pub open spec fn sstr(o: Option<SJson>) -> Option<Seq<char>> {
    match o {
        Some(SJson::Str(s)) => Some(s),
        _ => None,
    }
}

/// An integer that fits an `i64` (`Value::as_i64`).
pub open spec fn si64(o: Option<SJson>) -> Option<i64> {
    match o {
        Some(SJson::Int(i)) => Some(i),
        _ => None,
    }
}

/// A boolean (`Value::as_bool`).
pub open spec fn sbool(o: Option<SJson>) -> Option<bool> {
    match o {
        Some(SJson::Bool(b)) => Some(b),
        _ => None,
    }
}

pub open spec fn sis_null(o: Option<SJson>) -> bool {
    o == Some(SJson::Null)
}

pub open spec fn sis_array(o: Option<SJson>) -> bool {
    o matches Some(SJson::Array(_))
}

/// Index of the first entry with key `k`.
pub open spec fn key_index(es: Seq<(Seq<char>, SJson)>, k: Seq<char>) -> Option<int>
    decreases es.len(),
{
    if es.len() == 0 {
        None
    } else if es[0].0 == k {
        Some(0)
    } else {
        match key_index(es.drop_first(), k) {
            Some(j) => Some(j + 1),
            None => None,
        }
    }
}

/// The member `k` of an object (`Value::get` with a key).
pub open spec fn skey(o: Option<SJson>, k: Seq<char>) -> Option<SJson> {
    match o {
        Some(SJson::Object(es)) => match key_index(es, k) {
            Some(j) => Some(es[j].1),
            None => None,
        },
        _ => None,
    }
}

/// Text or the empty text (`unwrap_or_default` on a string).
pub open spec fn or_empty(o: Option<Seq<char>>) -> Seq<char> {
    match o {
        Some(s) => s,
        None => Seq::empty(),
    }
}

/// The node reached by following the array indices of `path`.
pub open spec fn path_at(v: SJson, path: Seq<int>) -> Option<SJson>
    decreases path.len(),
{
    if path.len() == 0 {
        Some(v)
    } else {
        match sget(Some(v), path[0]) {
            Some(c) => path_at(c, path.drop_first()),
            None => None,
        }
    }
}

proof fn lemma_key_index_bounds(es: Seq<(Seq<char>, SJson)>, k: Seq<char>)
    ensures
        key_index(es, k) matches Some(j) ==> 0 <= j < es.len() && es[j].0 == k,
        key_index(es, k) is None ==> forall|j: int| 0 <= j < es.len() ==> es[j].0 != k,
    decreases es.len(),
{
    if es.len() > 0 {
        lemma_key_index_bounds(es.drop_first(), k);
        if es[0].0 != k {
            assert forall|j: int| 0 <= j < es.len() && key_index(es, k) is None implies es[j].0 != k by {
                if j > 0 {
                    assert(es.drop_first()[j - 1] == es[j]);
                }
            }
        }
    }
}

// ---- Reading a document ----

impl JsonValue {
    pub fn get(&self, i: usize) -> (r: Option<&JsonValue>)
        ensures
            opt_view(r) == sget(Some(self@), i as int),
    {
        match self {
            JsonValue::Array(items) => if i < items.len() {
                Some(&items[i])
            } else {
                None
            },
            _ => None,
        }
    }

    pub fn as_array(&self) -> (r: Option<&Vec<JsonValue>>)
        ensures
            match r {
                Some(v) => sarr(Some(self@)) == Some(views(v@)),
                None => sarr(Some(self@)) is None,
            },
    {
        match self {
            JsonValue::Array(items) => {
                assert(views(items@) =~= sarr(Some(self@))->0);
                Some(items)
            },
            _ => None,
        }
    }

    pub fn as_str(&self) -> (r: Option<&String>)
        ensures
            opt_str_view(r) == sstr(Some(self@)),
    {
        match self {
            JsonValue::Str(s) => Some(s),
            _ => None,
        }
    }

    pub fn as_i64(&self) -> (r: Option<i64>)
        ensures
            r == si64(Some(self@)),
    {
        match self {
            JsonValue::Int(i) => Some(*i),
            _ => None,
        }
    }

    pub fn as_bool(&self) -> (r: Option<bool>)
        ensures
            r == sbool(Some(self@)),
    {
        match self {
            JsonValue::Bool(b) => Some(*b),
            _ => None,
        }
    }

    pub fn is_null(&self) -> (r: bool)
        ensures
            r == sis_null(Some(self@)),
    {
        match self {
            JsonValue::Null => true,
            _ => false,
        }
    }

    pub fn is_array(&self) -> (r: bool)
        ensures
            r == sis_array(Some(self@)),
    {
        match self {
            JsonValue::Array(_) => true,
            _ => false,
        }
    }

    /// The member `key` of an object.
    pub fn get_key(&self, key: &str) -> (r: Option<&JsonValue>)
        ensures
            opt_view(r) == skey(Some(self@), key@),
    {
        match self {
            JsonValue::Object(entries) => {
                let k = string_from(key);
                let ghost es = sarr_entries(self@);
                let mut i: usize = 0;
                assert(es.subrange(0, es.len() as int) =~= es);
                while i < entries.len()
                    invariant
                        i <= entries@.len(),
                        k@ == key@,
                        es == sarr_entries(self@),
                        *self == JsonValue::Object(*entries),
                        es.len() == entries@.len(),
                        forall|j: int| 0 <= j < entries@.len() ==> #[trigger] es[j] == (entries@[j].0@, entries@[j].1@),
                        key_index(es, key@) == (match key_index(es.subrange(i as int, es.len() as int), key@) {
                            Some(j) => Some(j + i),
                            None => None,
                        }),
                    decreases entries@.len() - i,
                {
                    let ghost rest = es.subrange(i as int, es.len() as int);
                    assert(rest[0] == es[i as int]);
                    assert(rest.drop_first() =~= es.subrange(i + 1, es.len() as int));
                    assert(es[i as int] == (entries@[i as int].0@, entries@[i as int].1@));
                    assert(rest.len() > 0);
                    assert(rest[0].0 == entries@[i as int].0@);
                    if entries[i].0 == k {
                        assert(key_index(rest, key@) == Some(0int));
                        assert(key_index(es, key@) == Some(i as int));
                        return Some(&entries[i].1);
                    }
                    assert(rest[0].0 != key@);
                    assert(key_index(rest, key@) == (match key_index(rest.drop_first(), key@) {
                        Some(j) => Some(j + 1),
                        None => None,
                    }));
                    i = i + 1;
                }
                assert(es.subrange(i as int, es.len() as int).len() == 0);
                None
            },
            _ => None,
        }
    }
}

/// The entries of an object view (empty for anything else).
pub open spec fn sarr_entries(v: SJson) -> Seq<(Seq<char>, SJson)> {
    match v {
        SJson::Object(es) => es,
        _ => Seq::empty(),
    }
}

/// `Option::and_then(Value::get)`.
pub fn oget(o: Option<&JsonValue>, i: usize) -> (r: Option<&JsonValue>)
    ensures
        opt_view(r) == sget(opt_view(o), i as int),
{
    match o {
        Some(v) => v.get(i),
        None => None,
    }
}

/// `Option::and_then(Value::as_str)`.
pub fn ostr(o: Option<&JsonValue>) -> (r: Option<&String>)
    ensures
        opt_str_view(r) == sstr(opt_view(o)),
{
    match o {
        Some(v) => v.as_str(),
        None => None,
    }
}

/// `Option::and_then(Value::as_i64)`.
pub fn oi64(o: Option<&JsonValue>) -> (r: Option<i64>)
    ensures
        r == si64(opt_view(o)),
{
    match o {
        Some(v) => v.as_i64(),
        None => None,
    }
}

/// `Option::and_then(Value::as_bool)`.
pub fn obool(o: Option<&JsonValue>) -> (r: Option<bool>)
    ensures
        r == sbool(opt_view(o)),
{
    match o {
        Some(v) => v.as_bool(),
        None => None,
    }
}

/// An owned copy of the text, or the empty text.
pub fn owned_or_empty(o: Option<&String>) -> (r: String)
    ensures
        r@ == or_empty(opt_str_view(o)),
{
    match o {
        Some(s) => s.clone(),
        None => String::new(),
    }
}

/// An owned copy of the text, if there is one.
pub fn owned_opt(o: Option<&String>) -> (r: Option<String>)
    ensures
        opt_string_view(r) == opt_str_view(o),
{
    match o {
        Some(s) => Some(s.clone()),
        None => None,
    }
}

pub open spec fn opt_string_view(r: Option<String>) -> Option<Seq<char>> {
    match r {
        Some(s) => Some(s@),
        None => None,
    }
}

/// The node reached by the array indices of `path` (a path through nested arrays).
pub fn json_at<'a>(data: &'a JsonValue, path: &[usize]) -> (r: Option<&'a JsonValue>)
    ensures
        opt_view(r) == path_at(data@, path@.map_values(|k: usize| k as int)),
{
    let ghost p = path@.map_values(|k: usize| k as int);
    let mut cur: &JsonValue = data;
    let mut i: usize = 0;
    assert(p.subrange(0, p.len() as int) =~= p);
    while i < path.len()
        invariant
            i <= path@.len(),
            p == path@.map_values(|k: usize| k as int),
            path_at(data@, p) == path_at(cur@, p.subrange(i as int, p.len() as int)),
        decreases path@.len() - i,
    {
        let ghost rest = p.subrange(i as int, p.len() as int);
        assert(rest[0] == path@[i as int] as int);
        assert(rest.drop_first() =~= p.subrange(i + 1, p.len() as int));
        match cur.get(path[i]) {
            Some(next) => {
                cur = next;
            },
            None => {
                return None;
            },
        }
        i = i + 1;
    }
    assert(p.subrange(i as int, p.len() as int).len() == 0);
    Some(cur)
}

// ---- Building a document ----

/// An array document made of `items`.
pub fn arr(items: Vec<JsonValue>) -> (r: JsonValue)
    ensures
        r@ == SJson::Array(views(items@)),
{
    let r = JsonValue::Array(items);
    assert(r@ == SJson::Array(views(items@))) by {
        assert(sarr(Some(r@))->0 =~= views(items@));
    }
    r
}

/// A string document holding the text of `s`.
pub fn jstr(s: &str) -> (r: JsonValue)
    ensures
        r@ == SJson::Str(s@),
{
    JsonValue::Str(string_from(s))
}

/// A copy of a document.
pub fn copy_json(v: &JsonValue) -> (r: JsonValue)
    ensures
        r@ == v@,
    decreases v,
{
    match v {
        JsonValue::Null => JsonValue::Null,
        JsonValue::Bool(b) => JsonValue::Bool(*b),
        JsonValue::Int(i) => JsonValue::Int(*i),
        JsonValue::UInt(u) => JsonValue::UInt(*u),
        JsonValue::Num(n) => JsonValue::Num(n.clone()),
        JsonValue::Str(s) => JsonValue::Str(s.clone()),
        JsonValue::Array(items) => {
            assert(decreases_to!(*v => *items));
            let mut out: Vec<JsonValue> = Vec::new();
            let mut i: usize = 0;
            while i < items.len()
                invariant
                    i <= items@.len(),
                    decreases_to!(*v => *items),
                    out@.len() == i,
                    forall|k: int| 0 <= k < i ==> #[trigger] out@[k]@ == items@[k]@,
                decreases items@.len() - i,
            {
                proof {
                    assert(decreases_to!(*items => items@));
                    assert(decreases_to!(items@ => items@[i as int]));
                }
                let c = copy_json(&items[i]);
                out.push(c);
                i = i + 1;
            }
            let ghost os = out@;
            let r = JsonValue::Array(out);
            assert(sarr(Some(r@))->0 =~= sarr(Some(v@))->0) by {
                assert forall|k: int| 0 <= k < os.len() implies json_view(os[k]) == json_view(items@[k]) by {
                    assert(os[k]@ == items@[k]@);
                }
            }
            r
        },
        JsonValue::Object(entries) => {
            assert(decreases_to!(*v => *entries));
            let mut out: Vec<(String, JsonValue)> = Vec::new();
            let mut i: usize = 0;
            while i < entries.len()
                invariant
                    i <= entries@.len(),
                    decreases_to!(*v => *entries),
                    out@.len() == i,
                    forall|k: int| 0 <= k < i ==> #[trigger] out@[k].0@ == entries@[k].0@ && out@[k].1@ == entries@[k].1@,
                decreases entries@.len() - i,
            {
                proof {
                    assert(decreases_to!(*entries => entries@));
                    assert(decreases_to!(entries@ => entries@[i as int]));
                    assert(decreases_to!(entries@[i as int] => entries@[i as int].1));
                }
                let c = copy_json(&entries[i].1);
                out.push((entries[i].0.clone(), c));
                i = i + 1;
            }
            let r = JsonValue::Object(out);
            assert(sarr_entries(r@) =~= sarr_entries(v@));
            r
        },
    }
}

/// `Number::clone`: the copy is the same number.
pub assume_specification[ <serde_json::Number as Clone>::clone ](n: &serde_json::Number) -> (r: serde_json::Number)
    ensures
        r == *n,
;



/// A count as a document: `Int` where it fits an `i64`, else `UInt`.
pub open spec fn count_json(n: usize) -> SJson {
    if n <= i64::MAX {
        SJson::Int(n as i64)
    } else {
        SJson::UInt(n as u64)
    }
}

pub fn count_value(n: usize) -> (r: JsonValue)
    ensures
        r@ == count_json(n),
{
    if (n as u64) <= (i64::MAX as u64) {
        JsonValue::Int(n as i64)
    } else {
        JsonValue::UInt(n as u64)
    }
}

// ---- JSON text, read and written by serde_json ----

/// What `serde_json` reads from `text`: the document, or the text of the
/// error where it refuses the text.
pub uninterp spec fn spec_json_parse(text: Seq<char>) -> core::result::Result<SJson, Seq<char>>;

/// The document that `serde_json` reads from `text`, or `None` where it
/// refuses the text.
pub open spec fn spec_parse_json(text: Seq<char>) -> Option<SJson> {
    match spec_json_parse(text) {
        Ok(v) => Some(v),
        Err(_) => None,
    }
}

/// The compact JSON text that `serde_json` writes for a document.
pub uninterp spec fn spec_json_text(v: SJson) -> Seq<char>;

/// The indented JSON text that `serde_json` writes for a document.
pub uninterp spec fn spec_json_pretty(v: SJson) -> Seq<char>;

pub open spec fn parse_view(r: core::result::Result<JsonValue, String>) -> core::result::Result<SJson, Seq<char>> {
    match r {
        Ok(v) => Ok(v@),
        Err(e) => Err(e@),
    }
}

/// `serde_json::from_str::<serde_json::Value>`: the document converted node
/// for node, or the error written with its `Display`, as `spec_json_parse`
/// names them.
#[verifier::external_body]
pub(crate) fn parse_json_text(text: &str) -> (r: core::result::Result<JsonValue, String>)
    ensures
        parse_view(r) == spec_json_parse(text@),
{
    match serde_json::from_str::<serde_json::Value>(text) {
        Ok(v) => Ok(from_serde(v)),
        Err(e) => Err(e.to_string()),
    }
}

/// The document in `text`, or `None` where it is not JSON.
pub fn parse_json(text: &str) -> (r: Option<JsonValue>)
    ensures
        match r {
            Some(v) => spec_parse_json(text@) == Some(v@),
            None => spec_parse_json(text@) is None,
        },
{
    match parse_json_text(text) {
        Ok(v) => Some(v),
        Err(_) => None,
    }
}

/// `serde_json::to_string` on the document converted node for node; the
/// text is the one that `spec_json_text` names. Writing a `Value` cannot
/// fail (all its keys are strings), so the error arm is never taken.
#[verifier::external_body]
pub(crate) fn to_json_text(v: &JsonValue) -> (r: String)
    ensures
        r@ == spec_json_text(v@),
{
    serde_json::to_string(&to_serde(v)).unwrap_or_default()
}

/// `serde_json::to_string_pretty` on the document converted node for node;
/// the text is the one that `spec_json_pretty` names. As with
/// `to_json_text`, the error arm is never taken.
#[verifier::external_body]
pub(crate) fn to_json_pretty(v: &JsonValue) -> (r: String)
    ensures
        r@ == spec_json_pretty(v@),
{
    serde_json::to_string_pretty(&to_serde(v)).unwrap_or_default()
}

/// Node-for-node conversion from `serde_json::Value`, used by
/// `parse_json_text` alone: each variant becomes the variant of the same name, and a number
/// becomes `Int` where `Number::as_i64` gives one.
#[verifier::external_body]
fn from_serde(v: serde_json::Value) -> JsonValue {
    match v {
        serde_json::Value::Null => JsonValue::Null,
        serde_json::Value::Bool(b) => JsonValue::Bool(b),
        serde_json::Value::Number(n) => match n.as_i64() {
            Some(i) => JsonValue::Int(i),
            None => JsonValue::Num(n),
        },
        serde_json::Value::String(s) => JsonValue::Str(s),
        serde_json::Value::Array(a) => JsonValue::Array(a.into_iter().map(from_serde).collect()),
        serde_json::Value::Object(m) => JsonValue::Object(
            m.into_iter().map(|(k, x)| (k, from_serde(x))).collect(),
        ),
    }
}

/// Node-for-node conversion to `serde_json::Value`, used by the two
/// writers alone; `Int` and `UInt` become the number of the same value.
#[verifier::external_body]
fn to_serde(v: &JsonValue) -> serde_json::Value {
    match v {
        JsonValue::Null => serde_json::Value::Null,
        JsonValue::Bool(b) => serde_json::Value::Bool(*b),
        JsonValue::Int(i) => serde_json::Value::Number(serde_json::Number::from(*i)),
        JsonValue::UInt(u) => serde_json::Value::Number(serde_json::Number::from(*u)),
        JsonValue::Num(n) => serde_json::Value::Number(n.clone()),
        JsonValue::Str(s) => serde_json::Value::String(s.clone()),
        JsonValue::Array(a) => serde_json::Value::Array(a.iter().map(to_serde).collect()),
        JsonValue::Object(es) => serde_json::Value::Object(
            es.iter().map(|(k, x)| (k.clone(), to_serde(x))).collect(),
        ),
    }
}


// ---- Arrays of a few elements ----

/// The array of the 1 given documents.
pub fn arr1(a: JsonValue) -> (r: JsonValue)
    ensures
        r@ == SJson::Array(seq![a@]),
{
    let ghost av = a@;
    let mut v: Vec<JsonValue> = Vec::new();
    v.push(a);
    assert(views(v@) =~= seq![av]);
    arr(v)
}

/// The array of the 2 given documents.
pub fn arr2(a: JsonValue, b: JsonValue) -> (r: JsonValue)
    ensures
        r@ == SJson::Array(seq![a@, b@]),
{
    let ghost av = a@;
    let ghost bv = b@;
    let mut v: Vec<JsonValue> = Vec::new();
    v.push(a);
    v.push(b);
    assert(views(v@) =~= seq![av, bv]);
    arr(v)
}

/// The array of the 3 given documents.
pub fn arr3(a: JsonValue, b: JsonValue, c: JsonValue) -> (r: JsonValue)
    ensures
        r@ == SJson::Array(seq![a@, b@, c@]),
{
    let ghost av = a@;
    let ghost bv = b@;
    let ghost cv = c@;
    let mut v: Vec<JsonValue> = Vec::new();
    v.push(a);
    v.push(b);
    v.push(c);
    assert(views(v@) =~= seq![av, bv, cv]);
    arr(v)
}

/// The array of the 4 given documents.
pub fn arr4(a: JsonValue, b: JsonValue, c: JsonValue, d: JsonValue) -> (r: JsonValue)
    ensures
        r@ == SJson::Array(seq![a@, b@, c@, d@]),
{
    let ghost av = a@;
    let ghost bv = b@;
    let ghost cv = c@;
    let ghost dv = d@;
    let mut v: Vec<JsonValue> = Vec::new();
    v.push(a);
    v.push(b);
    v.push(c);
    v.push(d);
    assert(views(v@) =~= seq![av, bv, cv, dv]);
    arr(v)
}

/// The array of the 5 given documents.
pub fn arr5(a: JsonValue, b: JsonValue, c: JsonValue, d: JsonValue, e: JsonValue) -> (r: JsonValue)
    ensures
        r@ == SJson::Array(seq![a@, b@, c@, d@, e@]),
{
    let ghost av = a@;
    let ghost bv = b@;
    let ghost cv = c@;
    let ghost dv = d@;
    let ghost ev = e@;
    let mut v: Vec<JsonValue> = Vec::new();
    v.push(a);
    v.push(b);
    v.push(c);
    v.push(d);
    v.push(e);
    assert(views(v@) =~= seq![av, bv, cv, dv, ev]);
    arr(v)
}

/// The array of the 6 given documents.
pub fn arr6(a: JsonValue, b: JsonValue, c: JsonValue, d: JsonValue, e: JsonValue, f: JsonValue) -> (r: JsonValue)
    ensures
        r@ == SJson::Array(seq![a@, b@, c@, d@, e@, f@]),
{
    let ghost av = a@;
    let ghost bv = b@;
    let ghost cv = c@;
    let ghost dv = d@;
    let ghost ev = e@;
    let ghost fv = f@;
    let mut v: Vec<JsonValue> = Vec::new();
    v.push(a);
    v.push(b);
    v.push(c);
    v.push(d);
    v.push(e);
    v.push(f);
    assert(views(v@) =~= seq![av, bv, cv, dv, ev, fv]);
    arr(v)
}

/// The array of the 7 given documents.
pub fn arr7(a: JsonValue, b: JsonValue, c: JsonValue, d: JsonValue, e: JsonValue, f: JsonValue, g: JsonValue) -> (r: JsonValue)
    ensures
        r@ == SJson::Array(seq![a@, b@, c@, d@, e@, f@, g@]),
{
    let ghost av = a@;
    let ghost bv = b@;
    let ghost cv = c@;
    let ghost dv = d@;
    let ghost ev = e@;
    let ghost fv = f@;
    let ghost gv = g@;
    let mut v: Vec<JsonValue> = Vec::new();
    v.push(a);
    v.push(b);
    v.push(c);
    v.push(d);
    v.push(e);
    v.push(f);
    v.push(g);
    assert(views(v@) =~= seq![av, bv, cv, dv, ev, fv, gv]);
    arr(v)
}

/// The array of the 8 given documents.
pub fn arr8(a: JsonValue, b: JsonValue, c: JsonValue, d: JsonValue, e: JsonValue, f: JsonValue, g: JsonValue, h: JsonValue) -> (r: JsonValue)
    ensures
        r@ == SJson::Array(seq![a@, b@, c@, d@, e@, f@, g@, h@]),
{
    let ghost av = a@;
    let ghost bv = b@;
    let ghost cv = c@;
    let ghost dv = d@;
    let ghost ev = e@;
    let ghost fv = f@;
    let ghost gv = g@;
    let ghost hv = h@;
    let mut v: Vec<JsonValue> = Vec::new();
    v.push(a);
    v.push(b);
    v.push(c);
    v.push(d);
    v.push(e);
    v.push(f);
    v.push(g);
    v.push(h);
    assert(views(v@) =~= seq![av, bv, cv, dv, ev, fv, gv, hv]);
    arr(v)
}

} // verus!

//! Typed, path-addressed reads over a nested document.
//!
//! The document is a tree of string-keyed objects with scalar leaves,
//! built once when the input is loaded and only read afterwards. A read
//! names a chain of keys and the leaf kind it wants; it either returns
//! that scalar or fails with a `ConfigError` that says which key broke
//! the chain, or which kind sat at its end instead.

use crate::decimal::Decimal;
use crate::errors::{ConfigError, ConfigErrorSpec, FieldKind};
use vstd::prelude::*;

verus! {

/// One value of the configuration document: a scalar leaf or a nested
/// object of keyed fields, in document order.
#[derive(Debug)]
pub enum DocValue {
    /// A text leaf.
    Text(String),
    /// A 64-bit integer leaf.
    Integer(i64),
    /// A decimal leaf (a floating-point number in the document's own
    /// terms, kept exactly as written).
    Num(Decimal),
    /// A nested object.
    Object(Vec<DocEntry>),
}

/// One keyed field of an object.
#[derive(Debug)]
pub struct DocEntry {
    pub key: String,
    pub value: DocValue,
}

/// The kind of a document value.
pub open spec fn kind_of(d: DocValue) -> FieldKind {
    match d {
        DocValue::Text(_) => FieldKind::Text,
        DocValue::Integer(_) => FieldKind::Integer,
        DocValue::Num(_) => FieldKind::Num,
        DocValue::Object(_) => FieldKind::Object,
    }
}

/// The first entry of `entries` whose key reads `key`, if any.
pub open spec fn lookup(entries: Seq<DocEntry>, key: Seq<char>) -> Option<DocValue>
    decreases entries.len(),
{
    if entries.len() == 0 {
        None
    } else if entries[0].key@ == key {
        Some(entries[0].value)
    } else {
        lookup(entries.drop_first(), key)
    }
}

/// Walks `path[from..]` down from `d`: the value reached, or the index
/// of the first key that does not resolve (because it is absent, or
/// because the value reached before it is not an object).
pub open spec fn resolve(d: DocValue, path: Seq<Seq<char>>, from: int) -> Result<DocValue, int>
    decreases path.len() - from,
{
    if from < 0 || from >= path.len() {
        Ok(d)
    } else {
        match d {
            DocValue::Object(entries) => match lookup(entries@, path[from]) {
                Some(v) => resolve(v, path, from + 1),
                None => Err(from),
            },
            _ => Err(from),
        }
    }
}

/// What `extract_str` returns: the text at `path`, or the config error.
pub open spec fn extract_str_spec(doc: DocValue, path: Seq<Seq<char>>) -> Result<
    Seq<char>,
    ConfigErrorSpec,
> {
    match resolve(doc, path, 0) {
        Ok(d) => match d {
            DocValue::Text(t) => Ok(t@),
            _ => Err(
                ConfigErrorSpec::TypeMismatch {
                    path,
                    expected: FieldKind::Text,
                    actual: kind_of(d),
                },
            ),
        },
        Err(j) => Err(ConfigErrorSpec::MissingKey { path, key_index: j }),
    }
}

/// What `extract_float` returns: the decimal at `path` — an integer
/// leaf coerces to the whole decimal — or the config error.
pub open spec fn extract_float_spec(doc: DocValue, path: Seq<Seq<char>>) -> Result<
    Decimal,
    ConfigErrorSpec,
> {
    match resolve(doc, path, 0) {
        Ok(d) => match d {
            DocValue::Num(x) => Ok(x),
            DocValue::Integer(i) => Ok(
                Decimal {
                    negative: i < 0,
                    mantissa: crate::decimal::abs(i as int) as u64,
                    scale: 0,
                },
            ),
            _ => Err(
                ConfigErrorSpec::TypeMismatch { path, expected: FieldKind::Num, actual: kind_of(d) },
            ),
        },
        Err(j) => Err(ConfigErrorSpec::MissingKey { path, key_index: j }),
    }
}

/// What `extract_i32` returns: the integer at `path` when it fits 32
/// bits, or the config error. A decimal leaf does not coerce to an
/// integer, and an integer outside the 32-bit range is reported as a
/// kind mismatch rather than silently truncated.
pub open spec fn extract_i32_spec(doc: DocValue, path: Seq<Seq<char>>) -> Result<
    i32,
    ConfigErrorSpec,
> {
    match resolve(doc, path, 0) {
        Ok(d) => match d {
            DocValue::Integer(i) => if i32::MIN <= i <= i32::MAX {
                Ok(i as i32)
            } else {
                Err(
                    ConfigErrorSpec::TypeMismatch {
                        path,
                        expected: FieldKind::Integer,
                        actual: FieldKind::Integer,
                    },
                )
            },
            _ => Err(
                ConfigErrorSpec::TypeMismatch {
                    path,
                    expected: FieldKind::Integer,
                    actual: kind_of(d),
                },
            ),
        },
        Err(j) => Err(ConfigErrorSpec::MissingKey { path, key_index: j }),
    }
}

/// A copy of `path` whose keys read the same.
fn clone_path(path: &Vec<String>) -> (r: Vec<String>)
    ensures
        r.deep_view() == path.deep_view(),
{
    let mut r: Vec<String> = Vec::new();
    let mut i: usize = 0;
    while i < path.len()
        invariant
            i <= path.len(),
            r@.len() == i,
            forall|k: int| 0 <= k < i ==> r@[k]@ == path@[k]@,
        decreases path.len() - i,
    {
        r.push(path[i].clone());
        i = i + 1;
    }
    proof {
        assert forall|k: int| 0 <= k < r@.len() implies r.deep_view()[k]
            == path.deep_view()[k] by {
            assert(r.deep_view()[k] == r@[k]@);
            assert(path.deep_view()[k] == path@[k]@);
        }
        assert(r.deep_view() =~= path.deep_view());
    }
    r
}

/// The entry of `entries` under `key`, by first match.
fn lookup_entry<'a>(entries: &'a Vec<DocEntry>, key: &String) -> (r: Option<
    &'a DocValue,
>)
    ensures
        match r {
            Some(v) => lookup(entries@, key@) == Some(*v),
            None => lookup(entries@, key@) is None,
        },
{
    proof {
        assert(entries@.skip(0) =~= entries@);
    }
    let mut i: usize = 0;
    while i < entries.len()
        invariant
            i <= entries.len(),
            lookup(entries@, key@) == lookup(entries@.skip(i as int), key@),
        decreases entries.len() - i,
    {
        proof {
            assert(entries@.skip(i as int)[0] == entries@[i as int]);
            assert(entries@.skip(i as int).drop_first() =~= entries@.skip(i as int + 1));
        }
        if entries[i].key == *key {
            return Some(&entries[i].value);
        }
        i = i + 1;
    }
    proof {
        assert(entries@.skip(entries@.len() as int) =~= Seq::<DocEntry>::empty());
    }
    None
}

/// Resolves `path` from `doc`: the value reached, or a `MissingKey`
/// error naming the first unresolvable key.
pub fn get_value<'a>(doc: &'a DocValue, path: &Vec<String>) -> (r: Result<&'a DocValue, ConfigError>)
    ensures
        match r {
            Ok(v) => resolve(*doc, path.deep_view(), 0) == Ok::<DocValue, int>(*v),
            Err(e) => {
                &&& resolve(*doc, path.deep_view(), 0) is Err
                &&& e@ == (ConfigErrorSpec::MissingKey {
                    path: path.deep_view(),
                    key_index: resolve(*doc, path.deep_view(), 0)->Err_0,
                })
            },
        },
{
    let ghost pd = path.deep_view();
    let mut cur: &DocValue = doc;
    let mut i: usize = 0;
    while i < path.len()
        invariant
            i <= path.len(),
            pd == path.deep_view(),
            pd.len() == path.len(),
            resolve(*doc, pd, 0) == resolve(*cur, pd, i as int),
        decreases path.len() - i,
    {
        proof {
            assert(pd[i as int] == path@[i as int]@);
        }
        match cur {
            DocValue::Object(entries) => {
                match lookup_entry(entries, &path[i]) {
                    Some(v) => {
                        cur = v;
                    },
                    None => {
                        return Err(ConfigError::MissingKey { path: clone_path(path), key_index: i });
                    },
                }
            },
            _ => {
                return Err(ConfigError::MissingKey { path: clone_path(path), key_index: i });
            },
        }
        i = i + 1;
    }
    Ok(cur)
}

/// The kind of `d`, computed.
fn kind_of_value(d: &DocValue) -> (k: FieldKind)
    ensures
        k == kind_of(*d),
{
    match d {
        DocValue::Text(_) => FieldKind::Text,
        DocValue::Integer(_) => FieldKind::Integer,
        DocValue::Num(_) => FieldKind::Num,
        DocValue::Object(_) => FieldKind::Object,
    }
}

/// The text at `path` in `doc`, or the config error naming the first
/// unresolvable key or the kind mismatch.
pub fn extract_str(doc: &DocValue, path: &Vec<String>) -> (r: Result<String, ConfigError>)
    ensures
        match r {
            Ok(s) => extract_str_spec(*doc, path.deep_view()) == Ok::<Seq<char>, ConfigErrorSpec>(
                s@,
            ),
            Err(e) => extract_str_spec(*doc, path.deep_view()) == Err::<Seq<char>, ConfigErrorSpec>(
                e@,
            ),
        },
{
    match get_value(doc, path) {
        Ok(v) => match v {
            DocValue::Text(t) => Ok(t.clone()),
            _ => Err(
                ConfigError::TypeMismatch {
                    path: clone_path(path),
                    expected: FieldKind::Text,
                    actual: kind_of_value(v),
                },
            ),
        },
        Err(e) => Err(e),
    }
}

/// The decimal at `path` in `doc` (an integer leaf coerces), or the
/// config error.
pub fn extract_float(doc: &DocValue, path: &Vec<String>) -> (r: Result<Decimal, ConfigError>)
    ensures
        match r {
            Ok(d) => extract_float_spec(*doc, path.deep_view()) == Ok::<Decimal, ConfigErrorSpec>(
                d,
            ),
            Err(e) => extract_float_spec(*doc, path.deep_view()) == Err::<Decimal, ConfigErrorSpec>(
                e@,
            ),
        },
{
    match get_value(doc, path) {
        Ok(v) => match v {
            DocValue::Num(x) => Ok(*x),
            DocValue::Integer(i) => Ok(Decimal::from_integer(*i)),
            _ => Err(
                ConfigError::TypeMismatch {
                    path: clone_path(path),
                    expected: FieldKind::Num,
                    actual: kind_of_value(v),
                },
            ),
        },
        Err(e) => Err(e),
    }
}

/// The 32-bit integer at `path` in `doc`, or the config error.
pub fn extract_i32(doc: &DocValue, path: &Vec<String>) -> (r: Result<i32, ConfigError>)
    ensures
        match r {
            Ok(i) => extract_i32_spec(*doc, path.deep_view()) == Ok::<i32, ConfigErrorSpec>(i),
            Err(e) => extract_i32_spec(*doc, path.deep_view()) == Err::<i32, ConfigErrorSpec>(e@),
        },
{
    match get_value(doc, path) {
        Ok(v) => match v {
            DocValue::Integer(i) => {
                if i32::MIN as i64 <= *i && *i <= i32::MAX as i64 {
                    Ok(*i as i32)
                } else {
                    Err(
                        ConfigError::TypeMismatch {
                            path: clone_path(path),
                            expected: FieldKind::Integer,
                            actual: FieldKind::Integer,
                        },
                    )
                }
            },
            _ => Err(
                ConfigError::TypeMismatch {
                    path: clone_path(path),
                    expected: FieldKind::Integer,
                    actual: kind_of_value(v),
                },
            ),
        },
        Err(e) => Err(e),
    }
}

} // verus!

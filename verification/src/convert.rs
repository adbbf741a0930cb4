use vstd::prelude::*;
use vstd::string::StringExecFns;
use crate::error::{yields, Decoded, Error, ErrorView, Result};
use crate::ident::thing_text;
use crate::value::{Array, Fields, Object, Thing, ThingView, Value, ValueView};

verus! {

/// Wrapper that marks a value as the source of a conversion.
pub struct W<T>(pub T);

/// The fields that a value stands for where an object is asked for.
pub open spec fn object_of(v: ValueView) -> Option<Fields> {
    match v {
        ValueView::Object(m) => Some(m),
        _ => None,
    }
}

/// The elements that a value stands for where an array is asked for.
pub open spec fn array_of(v: ValueView) -> Option<Seq<ValueView>> {
    match v {
        ValueView::Array(s) => Some(s),
        _ => None,
    }
}

/// The text that a value stands for where a string is asked for: a string itself, or
/// the canonical text of a record identifier.
pub open spec fn text_of(v: ValueView) -> Option<Seq<char>> {
    match v {
        ValueView::Strand(s) => Some(s),
        ValueView::Thing(t) => Some(thing_text(t)),
        _ => None,
    }
}

/// The integer that a value stands for where a number is asked for.
pub open spec fn int_of(v: ValueView) -> Option<int> {
    match v {
        ValueView::Number(n) => Some(n),
        _ => None,
    }
}

/// The truth value that a value stands for where a boolean is asked for.
pub open spec fn bool_of(v: ValueView) -> Option<bool> {
    match v {
        ValueView::Bool(b) => Some(b),
        _ => None,
    }
}

impl TryFrom<W<Value>> for Object {
    type Error = Error;

    fn try_from(val: W<Value>) -> (r: Result<Object>)
        ensures
            match r {
                Ok(o) => object_of(val.0@) == Some(o@),
                Err(e) => object_of(val.0@).is_none() && e@ == ErrorView::XValueNotOfType(
                    "Object"@,
                ),
            },
    {
        match val.0 {
            Value::Object(obj) => Ok(obj),
            _ => Err(Error::XValueNotOfType("Object")),
        }
    }
}

impl vstd::std_specs::convert::TryFromSpecImpl<W<Value>> for Object {
    open spec fn obeys_try_from_spec() -> bool {
        true
    }

    open spec fn try_from_spec(val: W<Value>) -> Result<Object> {
        match val.0 {
            Value::Object(obj) => Ok(obj),
            _ => Err(Error::XValueNotOfType("Object")),
        }
    }
}

impl TryFrom<W<Value>> for Array {
    type Error = Error;

    fn try_from(val: W<Value>) -> (r: Result<Array>)
        ensures
            match r {
                Ok(a) => array_of(val.0@) == Some(a@),
                Err(e) => array_of(val.0@).is_none() && e@ == ErrorView::XValueNotOfType("Array"@),
            },
    {
        match val.0 {
            Value::Array(obj) => Ok(obj),
            _ => Err(Error::XValueNotOfType("Array")),
        }
    }
}

impl vstd::std_specs::convert::TryFromSpecImpl<W<Value>> for Array {
    open spec fn obeys_try_from_spec() -> bool {
        true
    }

    open spec fn try_from_spec(val: W<Value>) -> Result<Array> {
        match val.0 {
            Value::Array(obj) => Ok(obj),
            _ => Err(Error::XValueNotOfType("Array")),
        }
    }
}

impl TryFrom<W<Value>> for String {
    type Error = Error;

    fn try_from(val: W<Value>) -> (r: Result<String>)
        ensures
            match r {
                Ok(s) => text_of(val.0@) == Some(s@),
                Err(e) => text_of(val.0@).is_none() && e@ == ErrorView::XValueNotOfType(
                    "String"@,
                ),
            },
    {
        match val.0 {
            Value::Strand(strand) => Ok(strand),
            Value::Thing(thing) => Ok(thing.to_raw()),
            _ => Err(Error::XValueNotOfType("String")),
        }
    }
}

impl vstd::std_specs::convert::TryFromSpecImpl<W<Value>> for String {
    open spec fn obeys_try_from_spec() -> bool {
        false
    }

    open spec fn try_from_spec(val: W<Value>) -> Result<String> {
        arbitrary()
    }
}

impl TryFrom<W<Value>> for i64 {
    type Error = Error;

    fn try_from(val: W<Value>) -> (r: Result<i64>)
        ensures
            match r {
                Ok(n) => int_of(val.0@) == Some(n as int),
                Err(e) => int_of(val.0@).is_none() && e@ == ErrorView::XValueNotOfType("i64"@),
            },
    {
        match val.0 {
            Value::Number(obj) => Ok(obj),
            _ => Err(Error::XValueNotOfType("i64")),
        }
    }
}

impl vstd::std_specs::convert::TryFromSpecImpl<W<Value>> for i64 {
    open spec fn obeys_try_from_spec() -> bool {
        true
    }

    open spec fn try_from_spec(val: W<Value>) -> Result<i64> {
        match val.0 {
            Value::Number(obj) => Ok(obj),
            _ => Err(Error::XValueNotOfType("i64")),
        }
    }
}

impl TryFrom<W<Value>> for bool {
    type Error = Error;

    fn try_from(val: W<Value>) -> (r: Result<bool>)
        ensures
            match r {
                Ok(b) => bool_of(val.0@) == Some(b),
                Err(e) => bool_of(val.0@).is_none() && e@ == ErrorView::XValueNotOfType("bool"@),
            },
    {
        match val.0 {
            Value::Bool(true) => Ok(true),
            Value::Bool(false) => Ok(false),
            _ => Err(Error::XValueNotOfType("bool")),
        }
    }
}

impl vstd::std_specs::convert::TryFromSpecImpl<W<Value>> for bool {
    open spec fn obeys_try_from_spec() -> bool {
        true
    }

    open spec fn try_from_spec(val: W<Value>) -> Result<bool> {
        match val.0 {
            Value::Bool(b) => Ok(b),
            _ => Err(Error::XValueNotOfType("bool")),
        }
    }
}

/// What taking the field `key` as a string yields.
pub open spec fn spec_take_string(fields: Fields, key: Seq<char>) -> Decoded<Seq<char>> {
    if !fields.dom().contains(key) {
        Err(ErrorView::XPropertyNotFound(key))
    } else {
        match text_of(fields[key]) {
            Some(s) => Ok(s),
            None => Err(ErrorView::XValueNotOfType("String"@)),
        }
    }
}

/// What taking the field `key` as an object yields.
pub open spec fn spec_take_object(fields: Fields, key: Seq<char>) -> Decoded<Fields> {
    if !fields.dom().contains(key) {
        Err(ErrorView::XPropertyNotFound(key))
    } else {
        match object_of(fields[key]) {
            Some(m) => Ok(m),
            None => Err(ErrorView::XValueNotOfType("Object"@)),
        }
    }
}

/// What taking the field `key` as a boolean yields.
pub open spec fn spec_take_bool(fields: Fields, key: Seq<char>) -> Decoded<bool> {
    if !fields.dom().contains(key) {
        Err(ErrorView::XPropertyNotFound(key))
    } else {
        match bool_of(fields[key]) {
            Some(b) => Ok(b),
            None => Err(ErrorView::XValueNotOfType("bool"@)),
        }
    }
}

/// What taking the field `key` as a record identifier yields.
pub open spec fn spec_take_thing(fields: Fields, key: Seq<char>) -> Decoded<ThingView> {
    if !fields.dom().contains(key) {
        Err(ErrorView::XPropertyNotFound(key))
    } else {
        match fields[key] {
            ValueView::Thing(t) => Ok(t),
            _ => Err(ErrorView::XValueNotOfType("Thing"@)),
        }
    }
}

/// Takes the field `key` out of `obj` and decodes it as a string. A missing field is
/// reported under its name; a field of another shape is still taken out.
pub fn take_string(obj: &mut Object, key: &str) -> (r: Result<String>)
    ensures
        final(obj)@ == old(obj)@.remove(key@),
        yields(r, spec_take_string(old(obj)@, key@)),
{
    match obj.remove(key) {
        Some(v) => String::try_from(W(v)),
        None => Err(Error::XPropertyNotFound(String::from_str(key))),
    }
}

/// Takes the field `key` out of `obj` and decodes it as an object.
pub fn take_object(obj: &mut Object, key: &str) -> (r: Result<Object>)
    ensures
        final(obj)@ == old(obj)@.remove(key@),
        yields(r, spec_take_object(old(obj)@, key@)),
{
    match obj.remove(key) {
        Some(v) => Object::try_from(W(v)),
        None => Err(Error::XPropertyNotFound(String::from_str(key))),
    }
}

/// Takes the field `key` out of `obj` and decodes it as a boolean.
pub fn take_bool(obj: &mut Object, key: &str) -> (r: Result<bool>)
    ensures
        final(obj)@ == old(obj)@.remove(key@),
        yields(r, spec_take_bool(old(obj)@, key@)),
{
    match obj.remove(key) {
        Some(v) => bool::try_from(W(v)),
        None => Err(Error::XPropertyNotFound(String::from_str(key))),
    }
}

/// Takes the field `key` out of `obj` and decodes it as a record identifier.
pub fn take_thing(obj: &mut Object, key: &str) -> (r: Result<Thing>)
    ensures
        final(obj)@ == old(obj)@.remove(key@),
        yields(r, spec_take_thing(old(obj)@, key@)),
{
    match obj.remove(key) {
        Some(Value::Thing(t)) => Ok(t),
        Some(_) => Err(Error::XValueNotOfType("Thing")),
        None => Err(Error::XPropertyNotFound(String::from_str(key))),
    }
}

} // verus!

//! Runtime values and their equality and truthiness rules.
//!
//! A value is one of four variants: nil, a boolean, a 64-bit signed integer,
//! or a heap object (only strings exist). Contracts speak of values through
//! the abstract [`AbsValue`] model, where a string is its byte sequence.

use std::rc::Rc;
use vstd::prelude::*;

use crate::object::{ObjString, ObjType};

verus! {

/// The mathematical model of a [`Value`]: what a value is, with sharing
/// erased. Strings are modelled by their text alone.
pub enum AbsValue {
    Nil,
    Bool(bool),
    Int(i64),
    Str(Seq<u8>),
}

/// Value equality as the language defines it: values of different variants
/// are never equal; nil, booleans and integers compare by value; strings
/// compare by text.
pub open spec fn abs_equal(a: AbsValue, b: AbsValue) -> bool {
    match (a, b) {
        (AbsValue::Nil, AbsValue::Nil) => true,
        (AbsValue::Bool(x), AbsValue::Bool(y)) => x == y,
        (AbsValue::Int(x), AbsValue::Int(y)) => x == y,
        (AbsValue::Str(x), AbsValue::Str(y)) => x == y,
        _ => false,
    }
}

/// A value is falsey exactly when it is nil or the boolean `false`;
/// everything else, including `0` and the empty string, is truthy.
pub open spec fn abs_falsey(v: AbsValue) -> bool {
    v == AbsValue::Nil || v == AbsValue::Bool(false)
}

/// A runtime value.
pub enum Value {
    Boolean(bool),
    Number(i64),
    Object(Rc<ObjString>),
    Nil,
}

impl View for Value {
    type V = AbsValue;

    open spec fn view(&self) -> AbsValue {
        match self {
            Value::Boolean(b) => AbsValue::Bool(*b),
            Value::Number(n) => AbsValue::Int(*n),
            Value::Object(rc) => AbsValue::Str(rc.string@),
            Value::Nil => AbsValue::Nil,
        }
    }
}

impl Clone for Value {
    /// Cloning preserves the modelled value; object clones share storage.
    fn clone(&self) -> (r: Self)
        ensures
            r@ == self@,
    {
        match self {
            Value::Boolean(b) => Value::Boolean(*b),
            Value::Number(n) => Value::Number(*n),
            Value::Object(rc) => Value::Object(rc.clone()),
            Value::Nil => Value::Nil,
        }
    }
}

impl Value {
    /// A boolean value.
    pub fn new_bool(val: bool) -> (r: Self)
        ensures
            r@ == AbsValue::Bool(val),
    {
        Value::Boolean(val)
    }

    /// The nil value.
    pub fn new_nil() -> (r: Self)
        ensures
            r@ == AbsValue::Nil,
    {
        Value::Nil
    }

    /// An integer value.
    pub fn new_number(val: i64) -> (r: Self)
        ensures
            r@ == AbsValue::Int(val),
    {
        Value::Number(val)
    }

    /// A value holding an already-allocated string object.
    pub fn new_obj(obj: Rc<ObjString>) -> (r: Self)
        ensures
            r@ == AbsValue::Str(obj.string@),
    {
        Value::Object(obj)
    }

    /// A string value with the given text.
    pub fn new_obj_string(text: Vec<u8>) -> (r: Self)
        ensures
            r@ == AbsValue::Str(text@),
    {
        Value::Object(Rc::new(ObjString::new(text)))
    }

    /// The boolean payload.
    pub fn as_bool(&self) -> (r: bool)
        requires
            self@ is Bool,
        ensures
            self@ == AbsValue::Bool(r),
    {
        match self {
            Value::Boolean(v) => *v,
            _ => false,
        }
    }

    /// The integer payload.
    pub fn as_number(&self) -> (r: i64)
        requires
            self@ is Int,
        ensures
            self@ == AbsValue::Int(r),
    {
        match self {
            Value::Number(v) => *v,
            _ => 0,
        }
    }

    /// The object payload.
    pub fn as_obj(&self) -> (r: &Rc<ObjString>)
        requires
            self@ is Str,
        ensures
            self@ == AbsValue::Str(r.string@),
    {
        match self {
            Value::Object(r) => r,
            _ => vstd::pervasive::unreached(),
        }
    }

    /// The string object held by a string value.
    pub fn as_string(&self) -> (r: &ObjString)
        requires
            self@ is Str,
        ensures
            self@ == AbsValue::Str(r.string@),
    {
        match self {
            Value::Object(r) => &**r,
            _ => vstd::pervasive::unreached(),
        }
    }

    /// The text of a string value.
    pub fn as_rust_string(&self) -> (r: &Vec<u8>)
        requires
            self@ is Str,
        ensures
            self@ == AbsValue::Str(r@),
    {
        &self.as_string().string
    }

    /// Whether this value is a boolean.
    pub fn is_bool(&self) -> (r: bool)
        ensures
            r == self@ is Bool,
    {
        match self {
            Value::Boolean(_) => true,
            _ => false,
        }
    }

    /// Whether this value is nil.
    pub fn is_nil(&self) -> (r: bool)
        ensures
            r == self@ is Nil,
    {
        match self {
            Value::Nil => true,
            _ => false,
        }
    }

    /// Whether this value is an integer.
    pub fn is_number(&self) -> (r: bool)
        ensures
            r == self@ is Int,
    {
        match self {
            Value::Number(_) => true,
            _ => false,
        }
    }

    /// Whether this value is a heap object.
    pub fn is_obj(&self) -> (r: bool)
        ensures
            r == self@ is Str,
    {
        match self {
            Value::Object(_) => true,
            _ => false,
        }
    }

    /// Whether this value is falsey: nil and `false` are, nothing else is.
    pub fn is_falsey(&self) -> (r: bool)
        ensures
            r == abs_falsey(self@),
    {
        match self {
            Value::Nil => true,
            Value::Boolean(v) => !*v,
            _ => false,
        }
    }

    /// Whether this value is a string object.
    pub fn is_string(&self) -> (r: bool)
        ensures
            r == self@ is Str,
    {
        self.is_obj_type(ObjType::ObjString)
    }

    /// The kind of the held object.
    pub fn obj_type(&self) -> (r: ObjType)
        requires
            self@ is Str,
        ensures
            r == ObjType::ObjString,
    {
        ObjType::ObjString
    }

    /// Whether this value holds an object of the given kind.
    pub fn is_obj_type(&self, obj_type: ObjType) -> (r: bool)
        ensures
            r == (self@ is Str && obj_type == ObjType::ObjString),
    {
        self.is_obj()
    }

    /// Language-level equality of two values.
    pub fn values_equal(&self, other: &Self) -> (r: bool)
        ensures
            r == abs_equal(self@, other@),
    {
        match (self, other) {
            (Value::Nil, Value::Nil) => true,
            (Value::Boolean(a), Value::Boolean(b)) => *a == *b,
            (Value::Number(a), Value::Number(b)) => *a == *b,
            (Value::Object(a), Value::Object(b)) => {
                let r = a.string == b.string;
                proof {
                    assert(r ==> a.string@ =~= b.string@);
                }
                r
            },
            _ => false,
        }
    }
}

/// Equality is symmetric: `a == b` exactly when `b == a`.
pub proof fn lemma_equality_symmetric(a: AbsValue, b: AbsValue)
    ensures
        abs_equal(a, b) == abs_equal(b, a),
{
}

/// Equality is reflexive: every value equals itself.
pub proof fn lemma_equality_reflexive(a: AbsValue)
    ensures
        abs_equal(a, a),
{
}

/// Values of different variants are never equal.
pub proof fn lemma_equality_cross_variant(a: AbsValue, b: AbsValue)
    requires
        !(a is Nil && b is Nil),
        !(a is Bool && b is Bool),
        !(a is Int && b is Int),
        !(a is Str && b is Str),
    ensures
        !abs_equal(a, b),
{
}

/// The ordered pool of constants embedded in a chunk.
#[derive(Default)]
pub struct ValueArray {
    pub values: Vec<Value>,
}

impl ValueArray {
    /// Appends a value to the pool.
    pub fn write_value_array(&mut self, value: Value)
        ensures
            final(self).values@ == old(self).values@.push(value),
    {
        self.values.push(value);
    }

    /// Empties the pool.
    pub fn free_value_array(&mut self)
        ensures
            final(self).values@.len() == 0,
    {
        self.values.clear();
    }
}

} // verus!

//! Builders and accessors of values.

use crate::value::{float_rank, pair_views, views, Symbol, Tagged, Value, ValueView};
use vstd::prelude::*;
use vstd::string::StringExecFns;

verus! {

impl Value {
    /// The symbol whose text is `s`.
    pub fn symbol(s: &str) -> (r: Value)
        ensures
            r@ == ValueView::Symbol(s@),
    {
        Value::Symbol(Symbol::new(String::from_str(s)))
    }

    /// The integer `i`.
    pub fn integer(i: i64) -> (r: Value)
        ensures
            r == Value::Integer(i),
    {
        Value::Integer(i)
    }

    /// The float whose IEEE 754 bit pattern is `bits`.
    pub fn float(bits: u64) -> (r: Value)
        ensures
            r == Value::Float(bits),
            r@ == ValueView::Float(float_rank(bits)),
    {
        Value::Float(bits)
    }

    /// The string whose text is `s`.
    pub fn string(s: &str) -> (r: Value)
        ensures
            r@ == ValueView::String(s@),
    {
        Value::String(String::from_str(s))
    }

    /// The keyword whose text is `s`.
    pub fn keyword(s: &str) -> (r: Value)
        ensures
            r@ == ValueView::Keyword(s@),
    {
        Value::Keyword(String::from_str(s))
    }

    /// Whether this is `Nil`.
    pub fn is_nil(&self) -> (r: bool)
        ensures
            r == (self@ is Nil),
    {
        self.as_nil().is_some()
    }

    /// The unit value, where this is `Nil`.
    pub fn as_nil(&self) -> (r: Option<()>)
        ensures
            r is Some <==> self@ is Nil,
    {
        match self {
            Value::Nil => Some(()),
            _ => None,
        }
    }

    /// Whether this is a symbol.
    pub fn is_symbol(&self) -> (r: bool)
        ensures
            r == (self@ is Symbol),
    {
        self.as_symbol().is_some()
    }

    /// The symbol, where this is a symbol.
    pub fn as_symbol(&self) -> (r: Option<&Symbol>)
        ensures
            r is Some <==> self@ is Symbol,
            r matches Some(x) ==> self@ == ValueView::Symbol(x@),
    {
        match self {
            Value::Symbol(v) => Some(v),
            _ => None,
        }
    }

    /// Whether this is a keyword.
    pub fn is_keyword(&self) -> (r: bool)
        ensures
            r == (self@ is Keyword),
    {
        self.as_keyword().is_some()
    }

    /// The text of the keyword, where this is a keyword.
    pub fn as_keyword(&self) -> (r: Option<&str>)
        ensures
            r is Some <==> self@ is Keyword,
            r matches Some(x) ==> self@ == ValueView::Keyword(x@),
    {
        match self {
            Value::Keyword(v) => Some(v.as_str()),
            _ => None,
        }
    }

    /// Whether this is a string.
    pub fn is_string(&self) -> (r: bool)
        ensures
            r == (self@ is String),
    {
        self.as_string().is_some()
    }

    /// The text of the string, where this is a string.
    pub fn as_string(&self) -> (r: Option<&str>)
        ensures
            r is Some <==> self@ is String,
            r matches Some(x) ==> self@ == ValueView::String(x@),
    {
        match self {
            Value::String(v) => Some(v.as_str()),
            _ => None,
        }
    }

    /// Whether this is a list.
    pub fn is_list(&self) -> (r: bool)
        ensures
            r == (self@ is List),
    {
        self.as_list().is_some()
    }

    /// The elements of the list, where this is a list.
    pub fn as_list(&self) -> (r: Option<&Vec<Value>>)
        ensures
            r is Some <==> self@ is List,
            r matches Some(x) ==> self@ == ValueView::List(views(x@)),
    {
        match self {
            Value::List(v) => Some(v),
            _ => None,
        }
    }

    /// Whether this is a vector.
    pub fn is_vector(&self) -> (r: bool)
        ensures
            r == (self@ is Vector),
    {
        self.as_vector().is_some()
    }

    /// The elements of the vector, where this is a vector.
    pub fn as_vector(&self) -> (r: Option<&Vec<Value>>)
        ensures
            r is Some <==> self@ is Vector,
            r matches Some(x) ==> self@ == ValueView::Vector(views(x@)),
    {
        match self {
            Value::Vector(v) => Some(v),
            _ => None,
        }
    }

    /// Whether this is a map.
    pub fn is_map(&self) -> (r: bool)
        ensures
            r == (self@ is Mapping),
    {
        self.as_map().is_some()
    }

    /// The entries of the map, in ascending order of their keys, where this is a map.
    pub fn as_map(&self) -> (r: Option<&Vec<(Value, Value)>>)
        ensures
            r is Some <==> self@ is Mapping,
            r matches Some(x) ==> self@ == ValueView::Mapping(pair_views(x@)),
    {
        match self {
            Value::Mapping(v) => Some(v),
            _ => None,
        }
    }

    /// Whether this is a set.
    pub fn is_set(&self) -> (r: bool)
        ensures
            r == (self@ is SetOf),
    {
        self.as_set().is_some()
    }

    /// The members of the set, in ascending order, where this is a set.
    pub fn as_set(&self) -> (r: Option<&Vec<Value>>)
        ensures
            r is Some <==> self@ is SetOf,
            r matches Some(x) ==> self@ == ValueView::SetOf(views(x@)),
    {
        match self {
            Value::SetOf(v) => Some(v),
            _ => None,
        }
    }

    /// Whether this is a tagged value.
    pub fn is_tagged(&self) -> (r: bool)
        ensures
            r == (self@ is Tagged),
    {
        self.as_tagged().is_some()
    }

    /// The tagged value, where this is a tagged value.
    pub fn as_tagged(&self) -> (r: Option<&Tagged>)
        ensures
            r is Some <==> self@ is Tagged,
            r matches Some(x) ==> *self == Value::Tagged(*x),
    {
        match self {
            Value::Tagged(v) => Some(v),
            _ => None,
        }
    }

    /// Whether this is an integer.
    pub fn is_integer(&self) -> (r: bool)
        ensures
            r == (self@ is Integer),
    {
        self.as_integer().is_some()
    }

    /// The integer, where this is an integer.
    pub fn as_integer(&self) -> (r: Option<i64>)
        ensures
            r is Some <==> self@ is Integer,
            r matches Some(x) ==> self@ == ValueView::Integer(x),
    {
        match self {
            Value::Integer(v) => Some(*v),
            _ => None,
        }
    }

    /// Whether this is a float.
    pub fn is_float(&self) -> (r: bool)
        ensures
            r == (self@ is Float),
    {
        self.as_float().is_some()
    }

    /// The bit pattern of the float, where this is a float.
    pub fn as_float(&self) -> (r: Option<u64>)
        ensures
            r is Some <==> self@ is Float,
            r matches Some(x) ==> *self == Value::Float(x),
            r matches Some(x) ==> self@ == ValueView::Float(float_rank(x)),
    {
        match self {
            Value::Float(v) => Some(*v),
            _ => None,
        }
    }

    /// Whether this is a character.
    pub fn is_char(&self) -> (r: bool)
        ensures
            r == (self@ is Char),
    {
        self.as_char().is_some()
    }

    /// The character, where this is a character.
    pub fn as_char(&self) -> (r: Option<char>)
        ensures
            r is Some <==> self@ is Char,
            r matches Some(x) ==> self@ == ValueView::Char(x),
    {
        match self {
            Value::Char(v) => Some(*v),
            _ => None,
        }
    }

    /// Whether this is a boolean.
    pub fn is_bool(&self) -> (r: bool)
        ensures
            r == (self@ is Bool),
    {
        self.as_bool().is_some()
    }

    /// The boolean, where this is a boolean.
    pub fn as_bool(&self) -> (r: Option<bool>)
        ensures
            r is Some <==> self@ is Bool,
            r matches Some(x) ==> self@ == ValueView::Bool(x),
    {
        match self {
            Value::Bool(v) => Some(*v),
            _ => None,
        }
    }

}

} // verus!

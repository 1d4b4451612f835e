//! The dynamic value tree and its mathematical model.

pub mod access;
pub mod de;
pub mod eq;
pub mod ord;

use crate::text::chars_of;
use vstd::prelude::*;
use vstd::string::StrSliceExecFns;

verus! {

/// An identifier, optionally namespaced as `prefix/name`.
#[derive(Debug, Clone, PartialEq, Eq, PartialOrd, Ord)]
pub struct Symbol {
    pub(crate) inner: String,
}

impl View for Symbol {
    type V = Seq<char>;

    closed spec fn view(&self) -> Seq<char> {
        self.inner@
    }
}

/// The index of the first `/` in `s` from `i` on, or the length of `s` where
/// there is none.
pub open spec fn slash_index(s: Seq<char>, i: int) -> int
    decreases s.len() - i,
{
    if 0 <= i < s.len() && s[i] != '/' {
        slash_index(s, i + 1)
    } else {
        i
    }
}

/// The local name of the identifier `s`: what follows its first `/`, and all
/// of it where it has none.
pub open spec fn name_of(s: Seq<char>) -> Seq<char> {
    let at = slash_index(s, 0);
    if 0 <= at < s.len() {
        s.subrange(at + 1, s.len() as int)
    } else {
        s
    }
}

/// The namespace of the identifier `s`: what stands before its first `/`, and
/// nothing where it has none.
pub open spec fn namespace_of(s: Seq<char>) -> Option<Seq<char>> {
    let at = slash_index(s, 0);
    if 0 <= at < s.len() {
        Some(s.subrange(0, at))
    } else {
        None
    }
}

/// Finds the first `/` in `v`.
fn find_slash(v: &Vec<char>) -> (r: usize)
    ensures
        r == slash_index(v@, 0),
        r <= v.len(),
{
    let mut i: usize = 0;
    while i < v.len() && v[i] != '/'
        invariant
            i <= v.len(),
            slash_index(v@, 0) == slash_index(v@, i as int),
        decreases v.len() - i,
    {
        i += 1;
    }
    i
}

impl Symbol {
    /// The local name: the part behind the first `/`, and the whole symbol
    /// where it has no `/`.
    pub fn name(&self) -> (r: &str)
        ensures
            r@ == name_of(self@),
    {
        let text = self.inner.as_str();
        let v = chars_of(text);
        let at = find_slash(&v);
        if at < v.len() {
            text.substring_char(at + 1, v.len())
        } else {
            text
        }
    }

    /// The namespace: the part before the first `/`, and nothing where the
    /// symbol has no `/`.
    pub fn namespace(&self) -> (r: Option<&str>)
        ensures
            match r {
                Some(prefix) => namespace_of(self@) == Some(prefix@),
                None => namespace_of(self@) is None,
            },
    {
        let text = self.inner.as_str();
        let v = chars_of(text);
        let at = find_slash(&v);
        if at < v.len() {
            Some(text.substring_char(0, at))
        } else {
            None
        }
    }

    /// The symbol whose text is `text`.
    pub fn new(text: String) -> (r: Symbol)
        ensures
            r@ == text@,
    {
        Symbol { inner: text }
    }

    /// The whole identifier, prefix included.
    pub fn as_str(&self) -> (r: &str)
        ensures
            r@ == self@,
    {
        self.inner.as_str()
    }

    /// Gives up the symbol for its text.
    pub fn into_string(self) -> (r: String)
        ensures
            r@ == self@,
    {
        self.inner
    }
}

/// A tagged extension value.
#[derive(Debug, Clone, PartialEq, Eq)]
pub enum Tagged {
    /// An instant, in nanoseconds from the Unix epoch.
    Inst(i64),
    /// A unique identifier.
    UUID(u128),
    /// Any other tag, with the value it wraps.
    User(Symbol, Box<Value>),
}

/// One node of a document.
#[derive(Debug)]
pub enum Value {
    Nil,
    Bool(bool),
    String(String),
    Char(char),
    Symbol(Symbol),
    Keyword(String),
    Integer(i64),
    /// A 64-bit float, held as its IEEE 754 bit pattern.
    Float(u64),
    List(Vec<Value>),
    Vector(Vec<Value>),
    /// The entries of a map, in ascending order of their keys.
    Mapping(Vec<(Value, Value)>),
    /// The members of a set, in ascending order.
    SetOf(Vec<Value>),
    Tagged(Tagged),
}

/// The model of a [`Tagged`].
pub ghost enum TaggedView {
    Inst(i64),
    UUID(u128),
    User(Seq<char>, Box<ValueView>),
}

/// The model of a [`Value`]: text is a sequence of characters, a float is its
/// place in the total order of floats, and a collection is a sequence.
pub ghost enum ValueView {
    Nil,
    Bool(bool),
    String(Seq<char>),
    Char(char),
    Symbol(Seq<char>),
    Keyword(Seq<char>),
    Integer(i64),
    Float(int),
    List(Seq<ValueView>),
    Vector(Seq<ValueView>),
    Mapping(Seq<(ValueView, ValueView)>),
    SetOf(Seq<ValueView>),
    Tagged(TaggedView),
}

/// The place of a float in the total order, from its bit pattern: floats
/// other than NaN keep their numeric order, both zeros share one place, and
/// every NaN takes the single place above positive infinity.
pub open spec fn float_rank(bits: u64) -> int {
    let magnitude: int = if bits >= 0x8000_0000_0000_0000 {
        bits - 0x8000_0000_0000_0000
    } else {
        bits as int
    };
    if magnitude > 0x7ff0_0000_0000_0000 {
        0x8000_0000_0000_0000
    } else if bits >= 0x8000_0000_0000_0000 {
        -magnitude
    } else {
        magnitude
    }
}

/// The models of `items`, in their order.
pub open spec fn views(items: Seq<Value>) -> Seq<ValueView>
    decreases items,
{
    Seq::new(
        items.len(),
        |i: int|
            if 0 <= i < items.len() {
                value_view(items[i])
            } else {
                ValueView::Nil
            },
    )
}

/// The models of `items`, each the model of a key with the model of its
/// value, in their order.
pub open spec fn pair_views(items: Seq<(Value, Value)>) -> Seq<(ValueView, ValueView)>
    decreases items,
{
    Seq::new(
        items.len(),
        |i: int|
            if 0 <= i < items.len() {
                (value_view(items[i].0), value_view(items[i].1))
            } else {
                (ValueView::Nil, ValueView::Nil)
            },
    )
}

/// The model of `v`.
pub open spec fn value_view(v: Value) -> ValueView
    decreases v,
{
    match v {
        Value::Nil => ValueView::Nil,
        Value::Bool(b) => ValueView::Bool(b),
        Value::String(s) => ValueView::String(s@),
        Value::Char(c) => ValueView::Char(c),
        Value::Symbol(s) => ValueView::Symbol(s@),
        Value::Keyword(s) => ValueView::Keyword(s@),
        Value::Integer(i) => ValueView::Integer(i),
        Value::Float(bits) => ValueView::Float(float_rank(bits)),
        Value::List(items) => ValueView::List(views(items@)),
        Value::Vector(items) => ValueView::Vector(views(items@)),
        Value::Mapping(entries) => ValueView::Mapping(pair_views(entries@)),
        Value::SetOf(items) => ValueView::SetOf(views(items@)),
        Value::Tagged(t) => ValueView::Tagged(
            match t {
                Tagged::Inst(i) => TaggedView::Inst(i),
                Tagged::UUID(u) => TaggedView::UUID(u),
                Tagged::User(tag, inner) => TaggedView::User(tag@, Box::new(value_view(*inner))),
            },
        ),
    }
}

/// The model of `t`.
pub open spec fn tagged_view(t: Tagged) -> TaggedView {
    match t {
        Tagged::Inst(i) => TaggedView::Inst(i),
        Tagged::UUID(u) => TaggedView::UUID(u),
        Tagged::User(tag, inner) => TaggedView::User(tag@, Box::new(value_view(*inner))),
    }
}

impl View for Tagged {
    type V = TaggedView;

    open spec fn view(&self) -> TaggedView {
        tagged_view(*self)
    }
}

/// The keys of `entries`, in their order.
pub open spec fn keys_of(entries: Seq<(ValueView, ValueView)>) -> Seq<ValueView> {
    Seq::new(entries.len(), |i: int| entries[i].0)
}

/// The values of `entries`, in their order.
pub open spec fn vals_of(entries: Seq<(ValueView, ValueView)>) -> Seq<ValueView> {
    Seq::new(entries.len(), |i: int| entries[i].1)
}

impl View for Value {
    type V = ValueView;

    open spec fn view(&self) -> ValueView {
        value_view(*self)
    }
}

/// Copies the values of `items`, in their order.
fn copy_values(items: &Vec<Value>) -> (r: Vec<Value>)
    ensures
        views(r@) == views(items@),
    decreases items, 0int,
{
    let mut out: Vec<Value> = Vec::new();
    let mut i: usize = 0;
    while i < items.len()
        invariant
            i <= items.len(),
            out@.len() == i,
            forall|k: int| 0 <= k < i ==> (#[trigger] out@[k])@ == items@[k]@,
        decreases items.len() - i,
    {
        out.push(items[i].copy());
        i += 1;
    }
    assert(views(out@) =~= views(items@));
    out
}

/// Copies the entries of `entries`, in their order.
fn copy_entries(entries: &Vec<(Value, Value)>) -> (r: Vec<(Value, Value)>)
    ensures
        pair_views(r@) == pair_views(entries@),
    decreases entries, 0int,
{
    let mut out: Vec<(Value, Value)> = Vec::new();
    let mut i: usize = 0;
    while i < entries.len()
        invariant
            i <= entries.len(),
            out@.len() == i,
            forall|k: int|
                0 <= k < i ==> (#[trigger] out@[k]).0@ == entries@[k].0@ && out@[k].1@
                    == entries@[k].1@,
        decreases entries.len() - i,
    {
        let k = entries[i].0.copy();
        let v = entries[i].1.copy();
        out.push((k, v));
        i += 1;
    }
    assert(pair_views(out@) =~= pair_views(entries@));
    out
}

impl Value {
    /// A copy of this value.
    pub fn copy(&self) -> (r: Value)
        ensures
            r@ == self@,
        decreases self, 1int,
    {
        match self {
            Value::Nil => Value::Nil,
            Value::Bool(b) => Value::Bool(*b),
            Value::String(s) => Value::String(s.clone()),
            Value::Char(c) => Value::Char(*c),
            Value::Symbol(s) => Value::Symbol(Symbol::new(s.inner.clone())),
            Value::Keyword(s) => Value::Keyword(s.clone()),
            Value::Integer(i) => Value::Integer(*i),
            Value::Float(bits) => Value::Float(*bits),
            Value::List(items) => Value::List(copy_values(items)),
            Value::Vector(items) => Value::Vector(copy_values(items)),
            Value::Mapping(entries) => Value::Mapping(copy_entries(entries)),
            Value::SetOf(items) => Value::SetOf(copy_values(items)),
            Value::Tagged(t) => Value::Tagged(
                match t {
                    Tagged::Inst(i) => Tagged::Inst(*i),
                    Tagged::UUID(u) => Tagged::UUID(*u),
                    Tagged::User(tag, inner) => Tagged::User(
                        Symbol::new(tag.inner.clone()),
                        Box::new(inner.copy()),
                    ),
                },
            ),
        }
    }
}

impl Clone for Value {
    fn clone(&self) -> (r: Value)
        ensures
            r@ == self@,
    {
        self.copy()
    }
}

} // verus!

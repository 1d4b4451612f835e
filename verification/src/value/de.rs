//! What each expected shape makes of one node.
//!
//! For every shape there is a spec function that says what a node gives under
//! it, and a method of [`Value`] that computes just that. A node whose variant
//! the shape does not accept gives `Bad`.

use crate::cursor::{ListAccess, MapStore};
use crate::error::Error;
use crate::number::{
    narrow, narrow_i16, narrow_i32, narrow_i64, narrow_i8, narrow_u16, narrow_u32, narrow_u64,
    narrow_u8,
};
use crate::value::{
    float_rank, keys_of, pair_views, tagged_view, vals_of, views, Symbol, Tagged, TaggedView,
    Value, ValueView,
};
use vstd::prelude::*;
use vstd::string::StringExecFns;

verus! {

/// The boolean shape accepts `Bool`.
pub open spec fn as_bool(v: ValueView) -> Result<bool, Error> {
    match v {
        ValueView::Bool(b) => Ok(b),
        _ => Err(Error::Bad),
    }
}

/// An integer shape that holds the integers from `lo` to `hi` accepts
/// `Integer`, narrowed to that range.
pub open spec fn as_integer(v: ValueView, lo: int, hi: int) -> Result<int, Error> {
    match v {
        ValueView::Integer(i) => narrow(i as int, lo, hi),
        _ => Err(Error::Bad),
    }
}

/// The 64-bit float shape accepts `Float`, and gives its place in the order
/// of floats.
pub open spec fn as_float(v: ValueView) -> Result<int, Error> {
    match v {
        ValueView::Float(rank) => Ok(rank),
        _ => Err(Error::Bad),
    }
}

/// The character shape accepts `Char`.
pub open spec fn as_char(v: ValueView) -> Result<char, Error> {
    match v {
        ValueView::Char(c) => Ok(c),
        _ => Err(Error::Bad),
    }
}

/// The string shape accepts `String`.
pub open spec fn as_string(v: ValueView) -> Result<Seq<char>, Error> {
    match v {
        ValueView::String(s) => Ok(s),
        _ => Err(Error::Bad),
    }
}

/// The identifier shape accepts `Keyword`, and gives its text.
pub open spec fn as_identifier(v: ValueView) -> Result<Seq<char>, Error> {
    match v {
        ValueView::Keyword(s) => Ok(s),
        _ => Err(Error::Bad),
    }
}

/// The optional shape accepts every node: `Nil` is absent, any other node is
/// present and is what the inner shape then gets.
pub open spec fn as_option(v: ValueView) -> Option<ValueView> {
    match v {
        ValueView::Nil => None,
        other => Some(other),
    }
}

/// The unit shape accepts `Nil`.
pub open spec fn as_unit(v: ValueView) -> Result<(), Error> {
    match v {
        ValueView::Nil => Ok(()),
        _ => Err(Error::Bad),
    }
}

/// The shape of a record named `name` that has no fields accepts an empty
/// list, an empty vector, and the symbol `name`.
pub open spec fn as_unit_struct(v: ValueView, name: Seq<char>) -> Result<(), Error> {
    match v {
        ValueView::List(items) => if items.len() == 0 {
            Ok(())
        } else {
            Err(Error::Bad)
        },
        ValueView::Vector(items) => if items.len() == 0 {
            Ok(())
        } else {
            Err(Error::Bad)
        },
        ValueView::Symbol(s) => if s == name {
            Ok(())
        } else {
            Err(Error::Bad)
        },
        _ => Err(Error::Bad),
    }
}

/// The shape of a wrapper around one inner value accepts a list or vector of
/// exactly one element, which the inner shape then gets, and any node that is
/// neither list nor vector, which the inner shape gets whole.
pub open spec fn as_newtype_struct(v: ValueView) -> Result<ValueView, Error> {
    match v {
        ValueView::List(items) => if items.len() == 1 {
            Ok(items[0])
        } else {
            Err(Error::Bad)
        },
        ValueView::Vector(items) => if items.len() == 1 {
            Ok(items[0])
        } else {
            Err(Error::Bad)
        },
        other => Ok(other),
    }
}

/// The sequence shape accepts a list, a vector and a set, and gives their
/// elements front to back.
pub open spec fn as_seq(v: ValueView) -> Result<Seq<ValueView>, Error> {
    match v {
        ValueView::List(items) => Ok(items),
        ValueView::Vector(items) => Ok(items),
        ValueView::SetOf(items) => Ok(items),
        _ => Err(Error::Bad),
    }
}

/// The shape of a tuple of `len` elements accepts a list and a vector of
/// exactly `len` elements.
pub open spec fn as_tuple(v: ValueView, len: nat) -> Result<Seq<ValueView>, Error> {
    match v {
        ValueView::List(items) => if items.len() == len {
            Ok(items)
        } else {
            Err(Error::Bad)
        },
        ValueView::Vector(items) => if items.len() == len {
            Ok(items)
        } else {
            Err(Error::Bad)
        },
        _ => Err(Error::Bad),
    }
}

/// The mapping shape accepts a map, and gives its entries in the map's order.
pub open spec fn as_map(v: ValueView) -> Result<Seq<(ValueView, ValueView)>, Error> {
    match v {
        ValueView::Mapping(entries) => Ok(entries),
        _ => Err(Error::Bad),
    }
}

/// What a node is handed over as where no shape is expected of it: its own
/// variant, with a cursor in place of each collection.
#[derive(Debug, PartialEq, Eq)]
pub enum Visit {
    Unit,
    Bool(bool),
    String(String),
    Char(char),
    Symbol(Symbol),
    Keyword(String),
    Integer(i64),
    /// A 64-bit float, as its bit pattern.
    Float(u64),
    List(ListAccess),
    Vector(ListAccess),
    Mapping(MapStore),
    SetOf(ListAccess),
    Tagged(Tagged),
}

/// The model of a [`Visit`].
pub ghost enum VisitView {
    Unit,
    Bool(bool),
    String(Seq<char>),
    Char(char),
    Symbol(Seq<char>),
    Keyword(Seq<char>),
    Integer(i64),
    Float(int),
    List(Seq<ValueView>),
    Vector(Seq<ValueView>),
    Mapping(Seq<(ValueView, ValueView)>),
    SetOf(Seq<ValueView>),
    Tagged(TaggedView),
}

impl View for Visit {
    type V = VisitView;

    open spec fn view(&self) -> VisitView {
        match *self {
            Visit::Unit => VisitView::Unit,
            Visit::Bool(b) => VisitView::Bool(b),
            Visit::String(s) => VisitView::String(s@),
            Visit::Char(c) => VisitView::Char(c),
            Visit::Symbol(s) => VisitView::Symbol(s@),
            Visit::Keyword(s) => VisitView::Keyword(s@),
            Visit::Integer(i) => VisitView::Integer(i),
            Visit::Float(bits) => VisitView::Float(float_rank(bits)),
            Visit::List(cursor) => VisitView::List(cursor@),
            Visit::Vector(cursor) => VisitView::Vector(cursor@),
            Visit::Mapping(cursor) => VisitView::Mapping(entries_of_cursor(cursor)),
            Visit::SetOf(cursor) => VisitView::SetOf(cursor@),
            Visit::Tagged(t) => VisitView::Tagged(tagged_view(t)),
        }
    }
}

/// The entries that are still to come under a cursor, each key with the
/// value at its place, as far as both keys and values go.
pub open spec fn entries_of_cursor(cursor: MapStore) -> Seq<(ValueView, ValueView)> {
    Seq::new(
        if cursor.keys_view().len() <= cursor.vals_view().len() {
            cursor.keys_view().len()
        } else {
            cursor.vals_view().len()
        },
        |i: int| (cursor.keys_view()[i], cursor.vals_view()[i]),
    )
}

/// With no shape expected every node is accepted, and handed over by its own
/// variant: `Nil` as the unit, a collection as its elements or its entries
/// under that collection's name, a tagged value with its tag and its node,
/// everything else as itself.
pub open spec fn as_any(v: ValueView) -> VisitView {
    match v {
        ValueView::Nil => VisitView::Unit,
        ValueView::Bool(b) => VisitView::Bool(b),
        ValueView::String(s) => VisitView::String(s),
        ValueView::Char(c) => VisitView::Char(c),
        ValueView::Symbol(s) => VisitView::Symbol(s),
        ValueView::Keyword(s) => VisitView::Keyword(s),
        ValueView::Integer(i) => VisitView::Integer(i),
        ValueView::Float(rank) => VisitView::Float(rank),
        ValueView::List(items) => VisitView::List(items),
        ValueView::Vector(items) => VisitView::Vector(items),
        ValueView::Mapping(entries) => VisitView::Mapping(entries),
        ValueView::SetOf(items) => VisitView::SetOf(items),
        ValueView::Tagged(t) => VisitView::Tagged(t),
    }
}

/// The node that stands for what was handed over: the node that `as_any`
/// hands over as just that.
pub open spec fn visit_value(visit: VisitView) -> ValueView {
    match visit {
        VisitView::Unit => ValueView::Nil,
        VisitView::Bool(b) => ValueView::Bool(b),
        VisitView::String(s) => ValueView::String(s),
        VisitView::Char(c) => ValueView::Char(c),
        VisitView::Symbol(s) => ValueView::Symbol(s),
        VisitView::Keyword(s) => ValueView::Keyword(s),
        VisitView::Integer(i) => ValueView::Integer(i),
        VisitView::Float(rank) => ValueView::Float(rank),
        VisitView::List(items) => ValueView::List(items),
        VisitView::Vector(items) => ValueView::Vector(items),
        VisitView::Mapping(entries) => ValueView::Mapping(entries),
        VisitView::SetOf(items) => ValueView::SetOf(items),
        VisitView::Tagged(t) => ValueView::Tagged(t),
    }
}

/// Pairs the keys under a cursor with the values under it, place by place.
fn zip(cursor: MapStore) -> (r: Vec<(Value, Value)>)
    ensures
        pair_views(r@) == entries_of_cursor(cursor),
{
    let ghost all = entries_of_cursor(cursor);
    let mut left = cursor;
    let mut out: Vec<(Value, Value)> = Vec::new();
    loop
        invariant
            all == entries_of_cursor(cursor),
            out@.len() <= all.len(),
            left.keys_view() == cursor.keys_view().skip(out@.len() as int),
            left.vals_view() == cursor.vals_view().skip(out@.len() as int),
            pair_views(out@) == all.take(out@.len() as int),
        decreases left.keys_view().len(),
    {
        let ghost i = out@.len() as int;
        let ghost before = pair_views(out@);
        match left.next_key() {
            None => {
                assert(all.take(i) =~= all);
                return out;
            },
            Some(k) => match left.next_value() {
                Ok(v) => {
                    out.push((k, v));
                    assert(left.keys_view() =~= cursor.keys_view().skip(i + 1));
                    assert(left.vals_view() =~= cursor.vals_view().skip(i + 1));
                    assert(pair_views(out@) =~= before.push((k@, v@)));
                    assert(all.take(i + 1) =~= all.take(i).push(all[i]));
                },
                Err(_) => {
                    assert(all.take(i) =~= all);
                    return out;
                },
            },
        }
    }
}

impl Visit {
    /// Gives the node that stands for what was handed over.
    pub fn into_value(self) -> (r: Value)
        ensures
            r@ == visit_value(self@),
    {
        match self {
            Visit::Unit => Value::Nil,
            Visit::Bool(b) => Value::Bool(b),
            Visit::String(s) => Value::String(s),
            Visit::Char(c) => Value::Char(c),
            Visit::Symbol(s) => Value::Symbol(s),
            Visit::Keyword(s) => Value::Keyword(s),
            Visit::Integer(i) => Value::Integer(i),
            Visit::Float(bits) => Value::Float(bits),
            Visit::List(cursor) => Value::List(cursor.0),
            Visit::Vector(cursor) => Value::Vector(cursor.0),
            Visit::Mapping(cursor) => Value::Mapping(zip(cursor)),
            Visit::SetOf(cursor) => Value::SetOf(cursor.0),
            Visit::Tagged(t) => Value::Tagged(t),
        }
    }
}

/// The model of what was handed over, or the error.
pub open spec fn visit_view(r: Result<Visit, Error>) -> Result<VisitView, Error> {
    match r {
        Ok(visit) => Ok(visit@),
        Err(e) => Err(e),
    }
}

/// Parts the entries of a map into its keys and its values.
fn unzip(entries: Vec<(Value, Value)>) -> (r: MapStore)
    ensures
        r.keys_view() == keys_of(pair_views(entries@)),
        r.vals_view() == vals_of(pair_views(entries@)),
{
    let mut entries = entries;
    let ghost all = pair_views(entries@);
    let mut keys: Vec<Value> = Vec::new();
    let mut vals: Vec<Value> = Vec::new();
    while entries.len() > 0
        invariant
            keys@.len() == vals@.len(),
            keys@.len() + entries@.len() == all.len(),
            forall|i: int| 0 <= i < keys@.len() ==> (#[trigger] keys@[i])@ == all[i].0,
            forall|i: int| 0 <= i < vals@.len() ==> (#[trigger] vals@[i])@ == all[i].1,
            forall|i: int|
                0 <= i < entries@.len() ==> #[trigger] pair_views(entries@)[i] == all[keys@.len()
                    + i],
        decreases entries@.len(),
    {
        let ghost before = pair_views(entries@);
        let (k, v) = entries.remove(0);
        assert(before[0] == (k@, v@));
        assert forall|i: int| 0 <= i < entries@.len() implies #[trigger] pair_views(
            entries@,
        )[i] == all[keys@.len() + 1 + i] by {
            assert(pair_views(entries@)[i] == before[i + 1]);
        }
        keys.push(k);
        vals.push(v);
    }
    let r = MapStore { keys, vals };
    assert(r.keys_view() =~= keys_of(all));
    assert(r.vals_view() =~= vals_of(all));
    r
}

impl Value {
    /// Decodes this node with no shape expected: every node is accepted, and
    /// handed over by its own variant.
    pub fn deserialize_any(self) -> (r: Result<Visit, Error>)
        ensures
            visit_view(r) == Ok::<VisitView, Error>(as_any(self@)),
    {
        match self {
            Value::Nil => Ok(Visit::Unit),
            Value::Bool(b) => Ok(Visit::Bool(b)),
            Value::String(s) => Ok(Visit::String(s)),
            Value::Char(c) => Ok(Visit::Char(c)),
            Value::Symbol(s) => Ok(Visit::Symbol(s)),
            Value::Keyword(s) => Ok(Visit::Keyword(s)),
            Value::Integer(i) => Ok(Visit::Integer(i)),
            Value::Float(bits) => Ok(Visit::Float(bits)),
            Value::List(items) => Ok(Visit::List(ListAccess::from(items))),
            Value::Vector(items) => Ok(Visit::Vector(ListAccess::from(items))),
            Value::Mapping(entries) => {
                let cursor = unzip(entries);
                assert(entries_of_cursor(cursor) =~= pair_views(entries@));
                Ok(Visit::Mapping(cursor))
            },
            Value::SetOf(items) => Ok(Visit::SetOf(ListAccess::from(items))),
            Value::Tagged(t) => Ok(Visit::Tagged(t)),
        }
    }

    /// Decodes this node as a boolean.
    pub fn deserialize_bool(self) -> (r: Result<bool, Error>)
        ensures
            r == as_bool(self@),
    {
        match self {
            Value::Bool(b) => Ok(b),
            _ => Err(Error::Bad),
        }
    }

    /// Decodes this node as an `i8`.
    pub fn deserialize_i8(self) -> (r: Result<i8, Error>)
        ensures
            match r {
                Ok(x) => as_integer(self@, i8::MIN as int, i8::MAX as int) == Ok::<int, Error>(
                    x as int,
                ),
                Err(e) => as_integer(self@, i8::MIN as int, i8::MAX as int) == Err::<int, Error>(
                    e,
                ),
            },
    {
        match self {
            Value::Integer(i) => narrow_i8(i),
            _ => Err(Error::Bad),
        }
    }

    /// Decodes this node as an `i16`.
    pub fn deserialize_i16(self) -> (r: Result<i16, Error>)
        ensures
            match r {
                Ok(x) => as_integer(self@, i16::MIN as int, i16::MAX as int) == Ok::<int, Error>(
                    x as int,
                ),
                Err(e) => as_integer(self@, i16::MIN as int, i16::MAX as int) == Err::<
                    int,
                    Error,
                >(e),
            },
    {
        match self {
            Value::Integer(i) => narrow_i16(i),
            _ => Err(Error::Bad),
        }
    }

    /// Decodes this node as an `i32`.
    pub fn deserialize_i32(self) -> (r: Result<i32, Error>)
        ensures
            match r {
                Ok(x) => as_integer(self@, i32::MIN as int, i32::MAX as int) == Ok::<int, Error>(
                    x as int,
                ),
                Err(e) => as_integer(self@, i32::MIN as int, i32::MAX as int) == Err::<
                    int,
                    Error,
                >(e),
            },
    {
        match self {
            Value::Integer(i) => narrow_i32(i),
            _ => Err(Error::Bad),
        }
    }

    /// Decodes this node as an `i64`.
    pub fn deserialize_i64(self) -> (r: Result<i64, Error>)
        ensures
            match r {
                Ok(x) => as_integer(self@, i64::MIN as int, i64::MAX as int) == Ok::<int, Error>(
                    x as int,
                ),
                Err(e) => as_integer(self@, i64::MIN as int, i64::MAX as int) == Err::<
                    int,
                    Error,
                >(e),
            },
    {
        match self {
            Value::Integer(i) => narrow_i64(i),
            _ => Err(Error::Bad),
        }
    }

    /// Decodes this node as a `u8`.
    pub fn deserialize_u8(self) -> (r: Result<u8, Error>)
        ensures
            match r {
                Ok(x) => as_integer(self@, 0, u8::MAX as int) == Ok::<int, Error>(x as int),
                Err(e) => as_integer(self@, 0, u8::MAX as int) == Err::<int, Error>(e),
            },
    {
        match self {
            Value::Integer(i) => narrow_u8(i),
            _ => Err(Error::Bad),
        }
    }

    /// Decodes this node as a `u16`.
    pub fn deserialize_u16(self) -> (r: Result<u16, Error>)
        ensures
            match r {
                Ok(x) => as_integer(self@, 0, u16::MAX as int) == Ok::<int, Error>(x as int),
                Err(e) => as_integer(self@, 0, u16::MAX as int) == Err::<int, Error>(e),
            },
    {
        match self {
            Value::Integer(i) => narrow_u16(i),
            _ => Err(Error::Bad),
        }
    }

    /// Decodes this node as a `u32`.
    pub fn deserialize_u32(self) -> (r: Result<u32, Error>)
        ensures
            match r {
                Ok(x) => as_integer(self@, 0, u32::MAX as int) == Ok::<int, Error>(x as int),
                Err(e) => as_integer(self@, 0, u32::MAX as int) == Err::<int, Error>(e),
            },
    {
        match self {
            Value::Integer(i) => narrow_u32(i),
            _ => Err(Error::Bad),
        }
    }

    /// Decodes this node as a `u64`.
    pub fn deserialize_u64(self) -> (r: Result<u64, Error>)
        ensures
            match r {
                Ok(x) => as_integer(self@, 0, u64::MAX as int) == Ok::<int, Error>(x as int),
                Err(e) => as_integer(self@, 0, u64::MAX as int) == Err::<int, Error>(e),
            },
    {
        match self {
            Value::Integer(i) => narrow_u64(i),
            _ => Err(Error::Bad),
        }
    }

    /// Decodes this node as a 64-bit float, and gives the float's bit
    /// pattern.
    pub fn deserialize_f64(self) -> (r: Result<u64, Error>)
        ensures
            match r {
                Ok(bits) => self == Value::Float(bits) && as_float(self@) == Ok::<int, Error>(
                    float_rank(bits),
                ),
                Err(e) => as_float(self@) == Err::<int, Error>(e),
            },
    {
        match self {
            Value::Float(bits) => Ok(bits),
            _ => Err(Error::Bad),
        }
    }

    /// Decodes this node as a character.
    pub fn deserialize_char(self) -> (r: Result<char, Error>)
        ensures
            r == as_char(self@),
    {
        match self {
            Value::Char(c) => Ok(c),
            _ => Err(Error::Bad),
        }
    }

    /// Decodes this node as a string.
    pub fn deserialize_string(self) -> (r: Result<String, Error>)
        ensures
            match r {
                Ok(s) => as_string(self@) == Ok::<Seq<char>, Error>(s@),
                Err(e) => as_string(self@) == Err::<Seq<char>, Error>(e),
            },
    {
        match self {
            Value::String(s) => Ok(s),
            _ => Err(Error::Bad),
        }
    }

    /// Decodes this node as a string; the same as `deserialize_string`.
    pub fn deserialize_str(self) -> (r: Result<String, Error>)
        ensures
            match r {
                Ok(s) => as_string(self@) == Ok::<Seq<char>, Error>(s@),
                Err(e) => as_string(self@) == Err::<Seq<char>, Error>(e),
            },
    {
        self.deserialize_string()
    }

    /// Decodes this node as the name of a field or of a variant.
    pub fn deserialize_identifier(self) -> (r: Result<String, Error>)
        ensures
            match r {
                Ok(s) => as_identifier(self@) == Ok::<Seq<char>, Error>(s@),
                Err(e) => as_identifier(self@) == Err::<Seq<char>, Error>(e),
            },
    {
        match self {
            Value::Keyword(s) => Ok(s),
            _ => Err(Error::Bad),
        }
    }

    /// Decodes this node as an optional value: nothing for `Nil`, else the
    /// node itself, for the inner shape to decode.
    pub fn deserialize_option(self) -> (r: Option<Value>)
        ensures
            match r {
                Some(inner) => inner == self && as_option(self@) == Some(inner@),
                None => as_option(self@) is None,
            },
    {
        match self {
            Value::Nil => None,
            other => Some(other),
        }
    }

    /// Decodes this node as the unit value.
    pub fn deserialize_unit(self) -> (r: Result<(), Error>)
        ensures
            r == as_unit(self@),
    {
        match self {
            Value::Nil => Ok(()),
            _ => Err(Error::Bad),
        }
    }

    /// Decodes this node as the record `name` that has no fields.
    pub fn deserialize_unit_struct(self, name: &str) -> (r: Result<(), Error>)
        ensures
            r == as_unit_struct(self@, name@),
    {
        match self {
            Value::Vector(items) => {
                assert(views(items@).len() == items@.len());
                if items.len() == 0 {
                    Ok(())
                } else {
                    Err(Error::Bad)
                }
            },
            Value::List(items) => {
                assert(views(items@).len() == items@.len());
                if items.len() == 0 {
                    Ok(())
                } else {
                    Err(Error::Bad)
                }
            },
            Value::Symbol(s) => {
                let wanted = String::from_str(name);
                if s.into_string() == wanted {
                    Ok(())
                } else {
                    Err(Error::Bad)
                }
            },
            _ => Err(Error::Bad),
        }
    }

    /// Decodes this node as a wrapper around one value, and gives the node
    /// that the wrapped shape is to decode.
    pub fn deserialize_newtype_struct(self, name: &str) -> (r: Result<Value, Error>)
        ensures
            match r {
                Ok(inner) => as_newtype_struct(self@) == Ok::<ValueView, Error>(inner@),
                Err(e) => as_newtype_struct(self@) == Err::<ValueView, Error>(e),
            },
    {
        match self {
            Value::List(items) => {
                assert(views(items@).len() == items@.len());
                sole(items)
            },
            Value::Vector(items) => {
                assert(views(items@).len() == items@.len());
                sole(items)
            },
            other => Ok(other),
        }
    }

    /// Decodes this node as a sequence, and gives a cursor over its elements.
    pub fn deserialize_seq(self) -> (r: Result<ListAccess, Error>)
        ensures
            match r {
                Ok(cursor) => as_seq(self@) == Ok::<Seq<ValueView>, Error>(cursor@),
                Err(e) => as_seq(self@) == Err::<Seq<ValueView>, Error>(e),
            },
    {
        match self {
            Value::SetOf(items) => Ok(ListAccess::from(items)),
            Value::Vector(items) => Ok(ListAccess::from(items)),
            Value::List(items) => Ok(ListAccess::from(items)),
            _ => Err(Error::Bad),
        }
    }

    /// Decodes this node as a tuple of `len` elements, and gives a cursor
    /// over them.
    pub fn deserialize_tuple(self, len: usize) -> (r: Result<ListAccess, Error>)
        ensures
            match r {
                Ok(cursor) => as_tuple(self@, len as nat) == Ok::<Seq<ValueView>, Error>(cursor@),
                Err(e) => as_tuple(self@, len as nat) == Err::<Seq<ValueView>, Error>(e),
            },
    {
        match self {
            Value::List(items) => {
                assert(views(items@).len() == items@.len());
                if items.len() == len {
                    Ok(ListAccess::from(items))
                } else {
                    Err(Error::Bad)
                }
            },
            Value::Vector(items) => {
                assert(views(items@).len() == items@.len());
                if items.len() == len {
                    Ok(ListAccess::from(items))
                } else {
                    Err(Error::Bad)
                }
            },
            _ => Err(Error::Bad),
        }
    }

    /// Decodes this node as a named tuple of `len` elements; the name plays
    /// no part.
    pub fn deserialize_tuple_struct(self, name: &str, len: usize) -> (r: Result<
        ListAccess,
        Error,
    >)
        ensures
            match r {
                Ok(cursor) => as_tuple(self@, len as nat) == Ok::<Seq<ValueView>, Error>(cursor@),
                Err(e) => as_tuple(self@, len as nat) == Err::<Seq<ValueView>, Error>(e),
            },
    {
        self.deserialize_tuple(len)
    }

    /// Decodes this node as a mapping, and gives a cursor over its entries.
    pub fn deserialize_map(self) -> (r: Result<MapStore, Error>)
        ensures
            match r {
                Ok(cursor) => as_map(self@) matches Ok(entries) && cursor.keys_view() == keys_of(
                    entries,
                ) && cursor.vals_view() == vals_of(entries),
                Err(e) => as_map(self@) == Err::<Seq<(ValueView, ValueView)>, Error>(e),
            },
    {
        match self {
            Value::Mapping(entries) => Ok(unzip(entries)),
            _ => Err(Error::Bad),
        }
    }

    /// Decodes this node as a record with named fields: a mapping whose keys
    /// are to be decoded as identifiers. Neither the name nor the list of
    /// fields plays a part here.
    pub fn deserialize_struct(self, name: &str, fields: &Vec<String>) -> (r: Result<
        MapStore,
        Error,
    >)
        ensures
            match r {
                Ok(cursor) => as_map(self@) matches Ok(entries) && cursor.keys_view() == keys_of(
                    entries,
                ) && cursor.vals_view() == vals_of(entries),
                Err(e) => as_map(self@) == Err::<Seq<(ValueView, ValueView)>, Error>(e),
            },
    {
        self.deserialize_map()
    }
}

/// The only element of `items`, or `Bad` where `items` has none or several.
fn sole(items: Vec<Value>) -> (r: Result<Value, Error>)
    ensures
        items@.len() == 1 ==> r is Ok && r->Ok_0@ == views(items@)[0],
        items@.len() != 1 ==> r == Err::<Value, Error>(Error::Bad),
{
    let mut items = items;
    let last = items.pop();
    match last {
        Some(v) => if items.is_empty() {
            Ok(v)
        } else {
            Err(Error::Bad)
        },
        None => Err(Error::Bad),
    }
}

} // verus!

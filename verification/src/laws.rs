//! What holds of decoding, for every node and every shape.

use crate::canonical::{distinct_keys, lemma_map_order_free, lemma_set_order_free};
use crate::error::Error;
use crate::reader::{blank_end, form_end, items_end, lemma_runs_end, read_node, string_end};
use crate::shape::{decode_each, decode_spec, DecodedView, Shape};
use crate::sorted::{entries_of, members_of};
use crate::value::de::{as_any, visit_value};
use crate::value::ValueView;
use vstd::prelude::*;

verus! {

/// What a wrapper makes of the decoding of the value inside it.
pub open spec fn wrapped(
    inner: Result<DecodedView, Error>,
    wrap: spec_fn(Box<DecodedView>) -> DecodedView,
) -> Result<DecodedView, Error> {
    match inner {
        Ok(d) => Ok(wrap(Box::new(d))),
        Err(e) => Err(e),
    }
}

/// An integer node decodes, under an integer shape of any width, to that
/// integer where it lies within the width, and fails with
/// `NumericOutOfBounds` where it does not.
pub proof fn law_integer_within_width(i: i64)
    ensures
        decode_spec(Shape::I8, ValueView::Integer(i)) == if i8::MIN <= i <= i8::MAX {
            Ok::<DecodedView, Error>(DecodedView::I8(i as i8))
        } else {
            Err::<DecodedView, Error>(Error::NumericOutOfBounds)
        },
        decode_spec(Shape::I16, ValueView::Integer(i)) == if i16::MIN <= i <= i16::MAX {
            Ok::<DecodedView, Error>(DecodedView::I16(i as i16))
        } else {
            Err::<DecodedView, Error>(Error::NumericOutOfBounds)
        },
        decode_spec(Shape::I32, ValueView::Integer(i)) == if i32::MIN <= i <= i32::MAX {
            Ok::<DecodedView, Error>(DecodedView::I32(i as i32))
        } else {
            Err::<DecodedView, Error>(Error::NumericOutOfBounds)
        },
        decode_spec(Shape::I64, ValueView::Integer(i)) == if i64::MIN <= i <= i64::MAX {
            Ok::<DecodedView, Error>(DecodedView::I64(i as i64))
        } else {
            Err::<DecodedView, Error>(Error::NumericOutOfBounds)
        },
        decode_spec(Shape::U8, ValueView::Integer(i)) == if u8::MIN <= i <= u8::MAX {
            Ok::<DecodedView, Error>(DecodedView::U8(i as u8))
        } else {
            Err::<DecodedView, Error>(Error::NumericOutOfBounds)
        },
        decode_spec(Shape::U16, ValueView::Integer(i)) == if u16::MIN <= i <= u16::MAX {
            Ok::<DecodedView, Error>(DecodedView::U16(i as u16))
        } else {
            Err::<DecodedView, Error>(Error::NumericOutOfBounds)
        },
        decode_spec(Shape::U32, ValueView::Integer(i)) == if u32::MIN <= i <= u32::MAX {
            Ok::<DecodedView, Error>(DecodedView::U32(i as u32))
        } else {
            Err::<DecodedView, Error>(Error::NumericOutOfBounds)
        },
        decode_spec(Shape::U64, ValueView::Integer(i)) == if u64::MIN <= i <= u64::MAX {
            Ok::<DecodedView, Error>(DecodedView::U64(i as u64))
        } else {
            Err::<DecodedView, Error>(Error::NumericOutOfBounds)
        },
{
}

/// A keyword fails with `Bad` under an integer shape of any width.
pub proof fn law_keyword_under_integer(text: Seq<char>)
    ensures
        decode_spec(Shape::I8, ValueView::Keyword(text)) == Err::<DecodedView, Error>(Error::Bad),
        decode_spec(Shape::I16, ValueView::Keyword(text)) == Err::<DecodedView, Error>(Error::Bad),
        decode_spec(Shape::I32, ValueView::Keyword(text)) == Err::<DecodedView, Error>(Error::Bad),
        decode_spec(Shape::I64, ValueView::Keyword(text)) == Err::<DecodedView, Error>(Error::Bad),
        decode_spec(Shape::U8, ValueView::Keyword(text)) == Err::<DecodedView, Error>(Error::Bad),
        decode_spec(Shape::U16, ValueView::Keyword(text)) == Err::<DecodedView, Error>(Error::Bad),
        decode_spec(Shape::U32, ValueView::Keyword(text)) == Err::<DecodedView, Error>(Error::Bad),
        decode_spec(Shape::U64, ValueView::Keyword(text)) == Err::<DecodedView, Error>(Error::Bad),
{
}

/// Under an optional shape `Nil` is absent, and any other node is present
/// with what it decodes to under the inner shape.
pub proof fn law_optional(inner: Shape, v: ValueView)
    ensures
        decode_spec(Shape::Optional(Box::new(inner)), ValueView::Nil) == Ok::<DecodedView, Error>(
            DecodedView::Absent,
        ),
        !(v is Nil) ==> decode_spec(Shape::Optional(Box::new(inner)), v) == wrapped(
            decode_spec(inner, v),
            |d: Box<DecodedView>| DecodedView::Present(d),
        ),
{
}

/// The unit shape accepts `Nil`, and fails with `Bad` on every other node.
pub proof fn law_unit(v: ValueView)
    ensures
        decode_spec(Shape::Unit, v) == if v is Nil {
            Ok::<DecodedView, Error>(DecodedView::Unit)
        } else {
            Err::<DecodedView, Error>(Error::Bad)
        },
{
}

/// The shape of a record without fields accepts the empty list, the empty
/// vector and the symbol of the record's name. It fails with `Bad` on a list
/// or vector that is not empty, and on any other symbol.
pub proof fn law_unit_struct(name: String, items: Seq<ValueView>, other: Seq<char>)
    ensures
        decode_spec(Shape::UnitStruct(name), ValueView::List(Seq::empty())) == Ok::<
            DecodedView,
            Error,
        >(DecodedView::Unit),
        decode_spec(Shape::UnitStruct(name), ValueView::Vector(Seq::empty())) == Ok::<
            DecodedView,
            Error,
        >(DecodedView::Unit),
        decode_spec(Shape::UnitStruct(name), ValueView::Symbol(name@)) == Ok::<
            DecodedView,
            Error,
        >(DecodedView::Unit),
        items.len() > 0 ==> decode_spec(Shape::UnitStruct(name), ValueView::List(items)) == Err::<
            DecodedView,
            Error,
        >(Error::Bad),
        items.len() > 0 ==> decode_spec(Shape::UnitStruct(name), ValueView::Vector(items))
            == Err::<DecodedView, Error>(Error::Bad),
        other != name@ ==> decode_spec(Shape::UnitStruct(name), ValueView::Symbol(other)) == Err::<
            DecodedView,
            Error,
        >(Error::Bad),
{
}

/// Under the shape of a wrapper, a node that is neither list nor vector, the
/// list of that one node and the vector of that one node all decode to the
/// wrapper around what the node decodes to under the inner shape. A list or
/// vector of any other length fails with `Bad`.
pub proof fn law_newtype_struct(name: String, inner: Shape, v: ValueView, items: Seq<ValueView>)
    ensures
        decode_spec(Shape::NewtypeStruct(name, Box::new(inner)), ValueView::List(seq![v]))
            == wrapped(decode_spec(inner, v), |d: Box<DecodedView>| DecodedView::Newtype(d)),
        decode_spec(Shape::NewtypeStruct(name, Box::new(inner)), ValueView::Vector(seq![v]))
            == wrapped(decode_spec(inner, v), |d: Box<DecodedView>| DecodedView::Newtype(d)),
        !(v is List) && !(v is Vector) ==> decode_spec(
            Shape::NewtypeStruct(name, Box::new(inner)),
            v,
        ) == wrapped(decode_spec(inner, v), |d: Box<DecodedView>| DecodedView::Newtype(d)),
        items.len() != 1 ==> decode_spec(
            Shape::NewtypeStruct(name, Box::new(inner)),
            ValueView::List(items),
        ) == Err::<DecodedView, Error>(Error::Bad),
        items.len() != 1 ==> decode_spec(
            Shape::NewtypeStruct(name, Box::new(inner)),
            ValueView::Vector(items),
        ) == Err::<DecodedView, Error>(Error::Bad),
{
}

/// Under the shape of a tuple, a list and a vector of the same items decode
/// alike, and both fail with `Bad` where the tuple has another number of
/// elements than they.
pub proof fn law_tuple(shapes: Vec<Shape>, items: Seq<ValueView>)
    ensures
        decode_spec(Shape::Tuple(shapes), ValueView::List(items)) == decode_spec(
            Shape::Tuple(shapes),
            ValueView::Vector(items),
        ),
        items.len() != shapes@.len() ==> decode_spec(Shape::Tuple(shapes), ValueView::List(items))
            == Err::<DecodedView, Error>(Error::Bad),
        items.len() == shapes@.len() ==> decode_spec(Shape::Tuple(shapes), ValueView::List(items))
            == wrapped_tuple(decode_each(shapes@, items, 0)),
{
}

/// The tuple of the decoded elements, or the error of the first that failed.
pub open spec fn wrapped_tuple(elements: Result<Seq<DecodedView>, Error>) -> Result<
    DecodedView,
    Error,
> {
    match elements {
        Ok(ds) => Ok(DecodedView::Tuple(ds)),
        Err(e) => Err(e),
    }
}

/// Under the sequence shape, a list, a vector and a set of the same items
/// decode alike.
pub proof fn law_sequence(element: Shape, items: Seq<ValueView>)
    ensures
        decode_spec(Shape::Sequence(Box::new(element)), ValueView::List(items)) == decode_spec(
            Shape::Sequence(Box::new(element)),
            ValueView::Vector(items),
        ),
        decode_spec(Shape::Sequence(Box::new(element)), ValueView::List(items)) == decode_spec(
            Shape::Sequence(Box::new(element)),
            ValueView::SetOf(items),
        ),
{
}

/// A map decodes alike, under any shape, whatever the order in which its
/// entries were given: two sequences of pairs that hold the same pairs, each
/// with no key twice, make maps that decode to one result.
pub proof fn law_map_entries_in_any_order(
    shape: Shape,
    a: Seq<(ValueView, ValueView)>,
    b: Seq<(ValueView, ValueView)>,
)
    requires
        distinct_keys(a, a.len() as int),
        distinct_keys(b, b.len() as int),
        forall|i: int| 0 <= i < a.len() ==> b.contains(#[trigger] a[i]),
        forall|i: int| 0 <= i < b.len() ==> a.contains(#[trigger] b[i]),
    ensures
        decode_spec(shape, ValueView::Mapping(entries_of(a, a.len() as int))) == decode_spec(
            shape,
            ValueView::Mapping(entries_of(b, b.len() as int)),
        ),
{
    lemma_map_order_free(a, b);
}

/// A set decodes alike, under any shape, whatever the order in which its
/// members were given: two sequences that hold the same items make sets that
/// decode to one result.
pub proof fn law_set_members_in_any_order(shape: Shape, a: Seq<ValueView>, b: Seq<ValueView>)
    requires
        forall|i: int| 0 <= i < a.len() ==> b.contains(#[trigger] a[i]),
        forall|i: int| 0 <= i < b.len() ==> a.contains(#[trigger] b[i]),
    ensures
        decode_spec(shape, ValueView::SetOf(members_of(a, a.len() as int))) == decode_spec(
            shape,
            ValueView::SetOf(members_of(b, b.len() as int)),
        ),
{
    lemma_set_order_free(a, b);
}

/// Every node comes back as itself from what it is handed over as where no
/// shape is expected: whatever its variant, and whatever it holds.
pub proof fn law_handed_over_and_back(v: ValueView)
    ensures
        visit_value(as_any(v)) == v,
{
}

/// With no shape expected every node decodes to itself.
pub proof fn law_round_trip(v: ValueView)
    ensures
        decode_spec(Shape::Any, v) == Ok::<DecodedView, Error>(DecodedView::Dynamic(v)),
{
}

/// A text that holds no form, only blanks, reads as `Eof`.
pub proof fn law_text_without_a_form(s: Seq<char>)
    requires
        blank_end(s, 0) >= s.len(),
    ensures
        read_node(s) == Err::<ValueView, Error>(Error::Eof),
{
}

/// A string with no quote behind it to close it gives `Eof`, whatever it
/// holds.
pub proof fn law_string_without_its_end(s: Seq<char>, j: int)
    requires
        0 <= j <= s.len(),
        forall|k: int| j <= k < s.len() ==> s[k] != '"',
    ensures
        string_end(s, j) == Err::<int, Error>(Error::Eof),
    decreases s.len() - j,
{
    if j < s.len() {
        if s[j] == '\\' {
            if j + 1 < s.len() {
                law_string_without_its_end(s, j + 2);
            }
        } else {
            law_string_without_its_end(s, j + 1);
        }
    }
}

/// A text whose first form is a string that is never closed reads as `Eof`.
pub proof fn law_string_cut_short(s: Seq<char>)
    requires
        0 <= blank_end(s, 0) < s.len(),
        s[blank_end(s, 0)] == '"',
        forall|k: int| blank_end(s, 0) < k < s.len() ==> s[k] != '"',
    ensures
        read_node(s) == Err::<ValueView, Error>(Error::Eof),
{
    law_string_without_its_end(s, blank_end(s, 0) + 1);
}

/// A text that ends behind the opening of a list, a vector, a map or a set,
/// with at most blanks behind it, reads as `Eof`; so does a text that ends
/// right behind a `#` or a backslash.
pub proof fn law_collection_cut_short(s: Seq<char>, i: int)
    requires
        i == blank_end(s, 0),
        0 <= i < s.len(),
    ensures
        (s[i] == '(' || s[i] == '[' || s[i] == '{') && blank_end(s, i + 1) >= s.len()
            ==> read_node(s) == Err::<ValueView, Error>(Error::Eof),
        s[i] == '#' && i + 1 < s.len() && s[i + 1] == '{' && blank_end(s, i + 2) >= s.len()
            ==> read_node(s) == Err::<ValueView, Error>(Error::Eof),
        (s[i] == '#' || s[i] == '\\') && i + 1 == s.len() ==> read_node(s) == Err::<
            ValueView,
            Error,
        >(Error::Eof),
{
    reveal_with_fuel(form_end, 2);
    reveal_with_fuel(items_end, 2);
    lemma_runs_end(s, i + 1);
    if i + 1 < s.len() {
        lemma_runs_end(s, i + 2);
    }
}

} // verus!

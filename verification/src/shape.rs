//! Shapes, and decoding a node under a shape.
//!
//! A [`Shape`] says what a caller expects of a node, down to the elements of
//! its collections. [`decode_spec`] says what each node gives under each
//! shape, and [`decode`] computes it with the operations of the decoder.

use crate::cursor::{ListAccess, MapStore};
use crate::de::{through, Deserializer};
use crate::error::Error;
use crate::reader::read_node;
use crate::value::de::{
    as_bool, as_char, as_float, as_identifier, as_integer, as_map, as_newtype_struct, as_option,
    as_seq, as_string, as_tuple, as_unit, as_unit_struct,
};
use crate::value::{float_rank, keys_of, vals_of, Value, ValueView};
use vstd::prelude::*;

verus! {

/// What a caller expects of a node.
#[derive(Debug, PartialEq, Eq)]
pub enum Shape {
    Bool,
    I8,
    I16,
    I32,
    I64,
    U8,
    U16,
    U32,
    U64,
    F64,
    Char,
    String,
    /// Nothing, or a value of the inner shape.
    Optional(Box<Shape>),
    Unit,
    /// A record with the given name and no fields.
    UnitStruct(String),
    /// A wrapper with the given name around one value of the inner shape.
    NewtypeStruct(String, Box<Shape>),
    /// Any number of values of one shape.
    Sequence(Box<Shape>),
    /// As many values as there are shapes, each of its own shape.
    Tuple(Vec<Shape>),
    /// A tuple with a name.
    TupleStruct(String, Vec<Shape>),
    /// Keys of the first shape with values of the second.
    Mapping(Box<Shape>, Box<Shape>),
    /// A record with the given name and the given fields, each with its
    /// shape.
    Struct(String, Vec<(String, Shape)>),
    /// The name of a field or of a variant.
    Identifier,
    /// Whatever the node is.
    Any,
}

/// A decoded value.
#[derive(Debug, PartialEq, Eq)]
pub enum Decoded {
    Unit,
    Bool(bool),
    I8(i8),
    I16(i16),
    I32(i32),
    I64(i64),
    U8(u8),
    U16(u16),
    U32(u32),
    U64(u64),
    /// A 64-bit float, as its bit pattern.
    F64(u64),
    Char(char),
    String(String),
    /// An optional value that is not there.
    Absent,
    /// An optional value that is there.
    Present(Box<Decoded>),
    /// The value inside a wrapper.
    Newtype(Box<Decoded>),
    Sequence(Vec<Decoded>),
    Tuple(Vec<Decoded>),
    /// The entries of a mapping, in the order in which the map holds them.
    Mapping(Vec<(Decoded, Decoded)>),
    /// The fields of a record, in the order in which its shape names them.
    Record(Vec<Decoded>),
    Identifier(String),
    /// A node as it is.
    Dynamic(Value),
}

/// The model of a [`Decoded`].
pub ghost enum DecodedView {
    Unit,
    Bool(bool),
    I8(i8),
    I16(i16),
    I32(i32),
    I64(i64),
    U8(u8),
    U16(u16),
    U32(u32),
    U64(u64),
    F64(int),
    Char(char),
    String(Seq<char>),
    Absent,
    Present(Box<DecodedView>),
    Newtype(Box<DecodedView>),
    Sequence(Seq<DecodedView>),
    Tuple(Seq<DecodedView>),
    Mapping(Seq<(DecodedView, DecodedView)>),
    Record(Seq<DecodedView>),
    Identifier(Seq<char>),
    Dynamic(ValueView),
}

pub open spec fn decoded_views(items: Seq<Decoded>) -> Seq<DecodedView>
    decreases items,
{
    Seq::new(
        items.len(),
        |i: int|
            if 0 <= i < items.len() {
                decoded_view(items[i])
            } else {
                DecodedView::Unit
            },
    )
}

pub open spec fn decoded_pair_views(items: Seq<(Decoded, Decoded)>) -> Seq<
    (DecodedView, DecodedView),
>
    decreases items,
{
    Seq::new(
        items.len(),
        |i: int|
            if 0 <= i < items.len() {
                (decoded_view(items[i].0), decoded_view(items[i].1))
            } else {
                (DecodedView::Unit, DecodedView::Unit)
            },
    )
}

pub open spec fn decoded_view(d: Decoded) -> DecodedView
    decreases d,
{
    match d {
        Decoded::Unit => DecodedView::Unit,
        Decoded::Bool(b) => DecodedView::Bool(b),
        Decoded::I8(x) => DecodedView::I8(x),
        Decoded::I16(x) => DecodedView::I16(x),
        Decoded::I32(x) => DecodedView::I32(x),
        Decoded::I64(x) => DecodedView::I64(x),
        Decoded::U8(x) => DecodedView::U8(x),
        Decoded::U16(x) => DecodedView::U16(x),
        Decoded::U32(x) => DecodedView::U32(x),
        Decoded::U64(x) => DecodedView::U64(x),
        Decoded::F64(bits) => DecodedView::F64(float_rank(bits)),
        Decoded::Char(c) => DecodedView::Char(c),
        Decoded::String(s) => DecodedView::String(s@),
        Decoded::Absent => DecodedView::Absent,
        Decoded::Present(inner) => DecodedView::Present(Box::new(decoded_view(*inner))),
        Decoded::Newtype(inner) => DecodedView::Newtype(Box::new(decoded_view(*inner))),
        Decoded::Sequence(items) => DecodedView::Sequence(decoded_views(items@)),
        Decoded::Tuple(items) => DecodedView::Tuple(decoded_views(items@)),
        Decoded::Mapping(entries) => DecodedView::Mapping(decoded_pair_views(entries@)),
        Decoded::Record(items) => DecodedView::Record(decoded_views(items@)),
        Decoded::Identifier(s) => DecodedView::Identifier(s@),
        Decoded::Dynamic(v) => DecodedView::Dynamic(v@),
    }
}

impl View for Decoded {
    type V = DecodedView;

    open spec fn view(&self) -> DecodedView {
        decoded_view(*self)
    }
}

/// The model of a decode's result.
pub open spec fn result_view(r: Result<Decoded, Error>) -> Result<DecodedView, Error> {
    match r {
        Ok(d) => Ok(d@),
        Err(e) => Err(e),
    }
}

/// The index of the first field from `i` on that is named `name`.
pub open spec fn field_index(fields: Seq<(String, Shape)>, name: Seq<char>, i: int) -> Option<int>
    decreases fields.len() - i,
{
    if i < 0 || i >= fields.len() {
        None
    } else if fields[i].0@ == name {
        Some(i)
    } else {
        field_index(fields, name, i + 1)
    }
}

/// The values of a record whose every field has one, and `Bad` where a field
/// has none.
pub open spec fn filled(slots: Seq<Option<DecodedView>>) -> Result<Seq<DecodedView>, Error> {
    if forall|i: int| 0 <= i < slots.len() ==> (#[trigger] slots[i]) is Some {
        Ok(Seq::new(slots.len(), |i: int| slots[i]->0))
    } else {
        Err(Error::Bad)
    }
}

/// What the node `v` gives under `shape`.
///
/// A collection is decoded element by element, front to back, and the first
/// element that fails gives its error to the whole. An entry of a record
/// must have a keyword for its key that names a field which has no value
/// yet, and every field must get its value.
pub open spec fn decode_spec(shape: Shape, v: ValueView) -> Result<DecodedView, Error>
    decreases shape, 1int, 0int,
{
    match shape {
        Shape::Bool => match as_bool(v) {
            Ok(b) => Ok(DecodedView::Bool(b)),
            Err(e) => Err(e),
        },
        Shape::I8 => match as_integer(v, i8::MIN as int, i8::MAX as int) {
            Ok(i) => Ok(DecodedView::I8(i as i8)),
            Err(e) => Err(e),
        },
        Shape::I16 => match as_integer(v, i16::MIN as int, i16::MAX as int) {
            Ok(i) => Ok(DecodedView::I16(i as i16)),
            Err(e) => Err(e),
        },
        Shape::I32 => match as_integer(v, i32::MIN as int, i32::MAX as int) {
            Ok(i) => Ok(DecodedView::I32(i as i32)),
            Err(e) => Err(e),
        },
        Shape::I64 => match as_integer(v, i64::MIN as int, i64::MAX as int) {
            Ok(i) => Ok(DecodedView::I64(i as i64)),
            Err(e) => Err(e),
        },
        Shape::U8 => match as_integer(v, 0, u8::MAX as int) {
            Ok(i) => Ok(DecodedView::U8(i as u8)),
            Err(e) => Err(e),
        },
        Shape::U16 => match as_integer(v, 0, u16::MAX as int) {
            Ok(i) => Ok(DecodedView::U16(i as u16)),
            Err(e) => Err(e),
        },
        Shape::U32 => match as_integer(v, 0, u32::MAX as int) {
            Ok(i) => Ok(DecodedView::U32(i as u32)),
            Err(e) => Err(e),
        },
        Shape::U64 => match as_integer(v, 0, u64::MAX as int) {
            Ok(i) => Ok(DecodedView::U64(i as u64)),
            Err(e) => Err(e),
        },
        Shape::F64 => match as_float(v) {
            Ok(rank) => Ok(DecodedView::F64(rank)),
            Err(e) => Err(e),
        },
        Shape::Char => match as_char(v) {
            Ok(c) => Ok(DecodedView::Char(c)),
            Err(e) => Err(e),
        },
        Shape::String => match as_string(v) {
            Ok(s) => Ok(DecodedView::String(s)),
            Err(e) => Err(e),
        },
        Shape::Optional(inner) => match as_option(v) {
            None => Ok(DecodedView::Absent),
            Some(present) => match decode_spec(*inner, present) {
                Ok(d) => Ok(DecodedView::Present(Box::new(d))),
                Err(e) => Err(e),
            },
        },
        Shape::Unit => match as_unit(v) {
            Ok(_) => Ok(DecodedView::Unit),
            Err(e) => Err(e),
        },
        Shape::UnitStruct(name) => match as_unit_struct(v, name@) {
            Ok(_) => Ok(DecodedView::Unit),
            Err(e) => Err(e),
        },
        Shape::NewtypeStruct(_, inner) => match as_newtype_struct(v) {
            Ok(wrapped) => match decode_spec(*inner, wrapped) {
                Ok(d) => Ok(DecodedView::Newtype(Box::new(d))),
                Err(e) => Err(e),
            },
            Err(e) => Err(e),
        },
        Shape::Sequence(element) => match as_seq(v) {
            Ok(items) => match decode_all(*element, items, 0) {
                Ok(ds) => Ok(DecodedView::Sequence(ds)),
                Err(e) => Err(e),
            },
            Err(e) => Err(e),
        },
        Shape::Tuple(shapes) => match as_tuple(v, shapes@.len()) {
            Ok(items) => match decode_each(shapes@, items, 0) {
                Ok(ds) => Ok(DecodedView::Tuple(ds)),
                Err(e) => Err(e),
            },
            Err(e) => Err(e),
        },
        Shape::TupleStruct(_, shapes) => match as_tuple(v, shapes@.len()) {
            Ok(items) => match decode_each(shapes@, items, 0) {
                Ok(ds) => Ok(DecodedView::Tuple(ds)),
                Err(e) => Err(e),
            },
            Err(e) => Err(e),
        },
        Shape::Mapping(key, value) => match as_map(v) {
            Ok(entries) => match decode_entries(shape, entries, 0) {
                Ok(ds) => Ok(DecodedView::Mapping(ds)),
                Err(e) => Err(e),
            },
            Err(e) => Err(e),
        },
        Shape::Struct(_, fields) => match as_map(v) {
            Ok(entries) => match decode_fields(
                fields@,
                entries,
                0,
                Seq::new(fields@.len(), |i: int| None::<DecodedView>),
            ) {
                Ok(slots) => match filled(slots) {
                    Ok(ds) => Ok(DecodedView::Record(ds)),
                    Err(e) => Err(e),
                },
                Err(e) => Err(e),
            },
            Err(e) => Err(e),
        },
        Shape::Identifier => match as_identifier(v) {
            Ok(s) => Ok(DecodedView::Identifier(s)),
            Err(e) => Err(e),
        },
        Shape::Any => Ok(DecodedView::Dynamic(v)),
    }
}

/// What the items from `i` on give, each under `element`.
pub open spec fn decode_all(element: Shape, items: Seq<ValueView>, i: int) -> Result<
    Seq<DecodedView>,
    Error,
>
    decreases element, 2int, items.len() - i,
{
    if i < 0 || i >= items.len() {
        Ok(Seq::empty())
    } else {
        match decode_spec(element, items[i]) {
            Ok(d) => match decode_all(element, items, i + 1) {
                Ok(ds) => Ok(seq![d] + ds),
                Err(e) => Err(e),
            },
            Err(e) => Err(e),
        }
    }
}

/// What the items from `i` on give, each under the shape of its place.
pub open spec fn decode_each(shapes: Seq<Shape>, items: Seq<ValueView>, i: int) -> Result<
    Seq<DecodedView>,
    Error,
>
    decreases shapes, 2int, items.len() - i,
{
    if i < 0 || i >= items.len() || i >= shapes.len() {
        Ok(Seq::empty())
    } else {
        match decode_spec(shapes[i], items[i]) {
            Ok(d) => match decode_each(shapes, items, i + 1) {
                Ok(ds) => Ok(seq![d] + ds),
                Err(e) => Err(e),
            },
            Err(e) => Err(e),
        }
    }
}

/// What the entries from `i` on give under the mapping shape `mapping`: each
/// key under the shape of keys, then its value under the shape of values.
pub open spec fn decode_entries(
    mapping: Shape,
    entries: Seq<(ValueView, ValueView)>,
    i: int,
) -> Result<Seq<(DecodedView, DecodedView)>, Error>
    decreases mapping, 0int, entries.len() - i,
{
    match mapping {
        Shape::Mapping(key, value) => if i < 0 || i >= entries.len() {
            Ok(Seq::empty())
        } else {
            match decode_spec(*key, entries[i].0) {
                Ok(k) => match decode_spec(*value, entries[i].1) {
                    Ok(d) => match decode_entries(mapping, entries, i + 1) {
                        Ok(ds) => Ok(seq![(k, d)] + ds),
                        Err(e) => Err(e),
                    },
                    Err(e) => Err(e),
                },
                Err(e) => Err(e),
            }
        },
        _ => Err(Error::Bad),
    }
}

/// The values of the fields once the entries from `i` on are decoded, where
/// `slots` holds the values that the entries before `i` gave.
pub open spec fn decode_fields(
    fields: Seq<(String, Shape)>,
    entries: Seq<(ValueView, ValueView)>,
    i: int,
    slots: Seq<Option<DecodedView>>,
) -> Result<Seq<Option<DecodedView>>, Error>
    decreases fields, 2int, entries.len() - i,
{
    if i < 0 || i >= entries.len() {
        Ok(slots)
    } else {
        match as_identifier(entries[i].0) {
            Ok(name) => match field_index(fields, name, 0) {
                Some(at) => if 0 <= at < fields.len() && at < slots.len() && slots[at] is None {
                    match decode_spec(fields[at].1, entries[i].1) {
                        Ok(d) => decode_fields(fields, entries, i + 1, slots.update(at, Some(d))),
                        Err(e) => Err(e),
                    }
                } else {
                    Err(Error::Bad)
                },
                None => Err(Error::Bad),
            },
            Err(e) => Err(e),
        }
    }
}

/// `r` with `prefix` before what it holds.
pub open spec fn behind<T>(prefix: Seq<T>, r: Result<Seq<T>, Error>) -> Result<Seq<T>, Error> {
    match r {
        Ok(rest) => Ok(prefix + rest),
        Err(e) => Err(e),
    }
}

/// The models of the values that fields have so far.
pub open spec fn slot_views(slots: Seq<Option<Decoded>>) -> Seq<Option<DecodedView>> {
    Seq::new(
        slots.len(),
        |i: int|
            match slots[i] {
                Some(d) => Some(d@),
                None => None,
            },
    )
}

/// Decodes what is left under a cursor, each element under `element`.
fn decode_elements(element: &Shape, cursor: ListAccess) -> (r: Result<Vec<Decoded>, Error>)
    ensures
        match r {
            Ok(items) => decode_all(*element, cursor@, 0) == Ok::<Seq<DecodedView>, Error>(
                decoded_views(items@),
            ),
            Err(e) => decode_all(*element, cursor@, 0) == Err::<Seq<DecodedView>, Error>(e),
        },
    decreases element, 2int,
{
    let ghost all = cursor@;
    let mut rest = cursor;
    let mut out: Vec<Decoded> = Vec::new();
    loop
        invariant
            all == cursor@,
            out@.len() <= all.len(),
            rest@ == all.skip(out@.len() as int),
            decode_all(*element, all, 0) == behind(
                decoded_views(out@),
                decode_all(*element, all, out@.len() as int),
            ),
        decreases rest@.len(),
    {
        let ghost i = out@.len() as int;
        let ghost before = decoded_views(out@);
        match rest.next_element() {
            None => {
                assert(before + Seq::<DecodedView>::empty() =~= before);
                return Ok(out);
            },
            Some(v) => {
                assert(v@ == all[i]);
                let mut sub = Deserializer::from_value(v);
                match decode(element, &mut sub) {
                    Ok(d) => {
                        out.push(d);
                        assert(decoded_views(out@) =~= before.push(d@));
                        assert(rest@ =~= all.skip(i + 1));
                        proof {
                            match decode_all(*element, all, i + 1) {
                                Ok(ds) => {
                                    assert(before.push(d@) + ds =~= before + (seq![d@] + ds));
                                },
                                Err(_) => {},
                            }
                        }
                    },
                    Err(e) => {
                        return Err(e);
                    },
                }
            },
        }
    }
}

/// Decodes what is left under a cursor, each element under the shape of its
/// place.
fn decode_places(shapes: &Vec<Shape>, cursor: ListAccess) -> (r: Result<Vec<Decoded>, Error>)
    requires
        cursor@.len() == shapes@.len(),
    ensures
        match r {
            Ok(items) => decode_each(shapes@, cursor@, 0) == Ok::<Seq<DecodedView>, Error>(
                decoded_views(items@),
            ),
            Err(e) => decode_each(shapes@, cursor@, 0) == Err::<Seq<DecodedView>, Error>(e),
        },
    decreases shapes, 2int,
{
    let ghost all = cursor@;
    let mut rest = cursor;
    let mut out: Vec<Decoded> = Vec::new();
    loop
        invariant
            all == cursor@,
            all.len() == shapes@.len(),
            out@.len() <= all.len(),
            rest@ == all.skip(out@.len() as int),
            decode_each(shapes@, all, 0) == behind(
                decoded_views(out@),
                decode_each(shapes@, all, out@.len() as int),
            ),
        decreases rest@.len(),
    {
        let ghost i = out@.len() as int;
        let ghost before = decoded_views(out@);
        match rest.next_element() {
            None => {
                assert(before + Seq::<DecodedView>::empty() =~= before);
                return Ok(out);
            },
            Some(v) => {
                assert(v@ == all[i]);
                let mut sub = Deserializer::from_value(v);
                match decode(&shapes[out.len()], &mut sub) {
                    Ok(d) => {
                        out.push(d);
                        assert(decoded_views(out@) =~= before.push(d@));
                        assert(rest@ =~= all.skip(i + 1));
                        proof {
                            match decode_each(shapes@, all, i + 1) {
                                Ok(ds) => {
                                    assert(before.push(d@) + ds =~= before + (seq![d@] + ds));
                                },
                                Err(_) => {},
                            }
                        }
                    },
                    Err(e) => {
                        return Err(e);
                    },
                }
            },
        }
    }
}

/// Decodes what is left under a cursor over entries, under the mapping shape
/// `mapping`.
fn decode_pairs(
    mapping: &Shape,
    store: MapStore,
    Ghost(entries): Ghost<Seq<(ValueView, ValueView)>>,
) -> (r: Result<Vec<(Decoded, Decoded)>, Error>)
    requires
        store.keys_view() == keys_of(entries),
        store.vals_view() == vals_of(entries),
    ensures
        match r {
            Ok(items) => decode_entries(*mapping, entries, 0) == Ok::<
                Seq<(DecodedView, DecodedView)>,
                Error,
            >(decoded_pair_views(items@)),
            Err(e) => decode_entries(*mapping, entries, 0) == Err::<
                Seq<(DecodedView, DecodedView)>,
                Error,
            >(e),
        },
    decreases mapping, 0int,
{
    let mut left = store;
    let mut out: Vec<(Decoded, Decoded)> = Vec::new();
    match mapping {
        Shape::Mapping(key, value) => {
            loop
                invariant
                    *mapping == Shape::Mapping(*key, *value),
                    out@.len() <= entries.len(),
                    left.keys_view() == keys_of(entries).skip(out@.len() as int),
                    left.vals_view() == vals_of(entries).skip(out@.len() as int),
                    decode_entries(*mapping, entries, 0) == behind(
                        decoded_pair_views(out@),
                        decode_entries(*mapping, entries, out@.len() as int),
                    ),
                decreases left.keys_view().len(),
            {
                let ghost i = out@.len() as int;
                let ghost before = decoded_pair_views(out@);
                match left.next_key() {
                    None => {
                        assert(before + Seq::<(DecodedView, DecodedView)>::empty() =~= before);
                        return Ok(out);
                    },
                    Some(k) => {
                        assert(k@ == entries[i].0);
                        match left.next_value() {
                            Ok(v) => {
                                assert(v@ == entries[i].1);
                                let mut sub = Deserializer::from_value(k);
                                match decode(key, &mut sub) {
                                    Ok(dk) => {
                                        let mut sub = Deserializer::from_value(v);
                                        match decode(value, &mut sub) {
                                            Ok(dv) => {
                                                out.push((dk, dv));
                                                assert(decoded_pair_views(out@) =~= before.push(
                                                    (dk@, dv@),
                                                ));
                                                assert(left.keys_view() =~= keys_of(
                                                    entries,
                                                ).skip(i + 1));
                                                assert(left.vals_view() =~= vals_of(
                                                    entries,
                                                ).skip(i + 1));
                                                proof {
                                                    match decode_entries(*mapping, entries, i + 1) {
                                                        Ok(ds) => {
                                                            assert(before.push((dk@, dv@)) + ds
                                                                =~= before + (seq![(dk@, dv@)]
                                                                + ds));
                                                        },
                                                        Err(_) => {},
                                                    }
                                                }
                                            },
                                            Err(e) => {
                                                return Err(e);
                                            },
                                        }
                                    },
                                    Err(e) => {
                                        return Err(e);
                                    },
                                }
                            },
                            Err(e) => {
                                return Err(e);
                            },
                        }
                    },
                }
            }
        },
        _ => Err(Error::Bad),
    }
}

/// Finds the first field that is named `name`.
fn find_field(fields: &Vec<(String, Shape)>, name: &String) -> (r: Option<usize>)
    ensures
        match r {
            Some(at) => field_index(fields@, name@, 0) == Some(at as int) && at < fields@.len(),
            None => field_index(fields@, name@, 0) is None,
        },
{
    let mut i: usize = 0;
    while i < fields.len()
        invariant
            i <= fields.len(),
            field_index(fields@, name@, 0) == field_index(fields@, name@, i as int),
        decreases fields.len() - i,
    {
        if fields[i].0 == *name {
            return Some(i);
        }
        i += 1;
    }
    None
}

/// Gives the values of a record whose every field has one.
fn fill(slots: Vec<Option<Decoded>>) -> (r: Result<Vec<Decoded>, Error>)
    ensures
        match r {
            Ok(items) => filled(slot_views(slots@)) == Ok::<Seq<DecodedView>, Error>(
                decoded_views(items@),
            ),
            Err(e) => filled(slot_views(slots@)) == Err::<Seq<DecodedView>, Error>(e),
        },
{
    let ghost all = slots@;
    let ghost models = slot_views(all);
    let mut out: Vec<Decoded> = Vec::new();
    for slot in it: slots
        invariant
            it.seq() == all,
            models == slot_views(all),
            out@.len() == it.index(),
            forall|k: int| 0 <= k < out@.len() ==> (#[trigger] models[k]) == Some(out@[k]@),
    {
        match slot {
            Some(d) => {
                out.push(d);
            },
            None => {
                assert(models[out@.len() as int] is None);
                return Err(Error::Bad);
            },
        }
    }
    assert(decoded_views(out@) =~= Seq::new(models.len(), |i: int| models[i]->0));
    Ok(out)
}

/// Decodes what is left under a cursor over entries as the fields of a
/// record.
fn decode_record(
    fields: &Vec<(String, Shape)>,
    store: MapStore,
    Ghost(entries): Ghost<Seq<(ValueView, ValueView)>>,
) -> (r: Result<Vec<Decoded>, Error>)
    requires
        store.keys_view() == keys_of(entries),
        store.vals_view() == vals_of(entries),
    ensures
        match r {
            Ok(items) => decode_fields(
                fields@,
                entries,
                0,
                Seq::new(fields@.len(), |i: int| None::<DecodedView>),
            ) matches Ok(slots) && filled(slots) == Ok::<Seq<DecodedView>, Error>(
                decoded_views(items@),
            ),
            Err(e) => match decode_fields(
                fields@,
                entries,
                0,
                Seq::new(fields@.len(), |i: int| None::<DecodedView>),
            ) {
                Ok(slots) => filled(slots) == Err::<Seq<DecodedView>, Error>(e),
                Err(d) => d == e,
            },
        },
    decreases fields, 2int,
{
    let ghost start = Seq::new(fields@.len(), |i: int| None::<DecodedView>);
    let mut left = store;
    let mut slots: Vec<Option<Decoded>> = Vec::new();
    while slots.len() < fields.len()
        invariant
            slots@.len() <= fields@.len(),
            forall|k: int| 0 <= k < slots@.len() ==> (#[trigger] slots@[k]) is None,
        decreases fields@.len() - slots@.len(),
    {
        slots.push(None);
    }
    assert(slot_views(slots@) =~= start);
    let ghost mut done: int = 0;
    loop
        invariant
            start == Seq::new(fields@.len(), |i: int| None::<DecodedView>),
            0 <= done <= entries.len(),
            slots@.len() == fields@.len(),
            left.keys_view() == keys_of(entries).skip(done),
            left.vals_view() == vals_of(entries).skip(done),
            decode_fields(fields@, entries, 0, start) == decode_fields(
                fields@,
                entries,
                done,
                slot_views(slots@),
            ),
        decreases left.keys_view().len(),
    {
        let ghost before = slot_views(slots@);
        match left.next_key() {
            None => {
                return fill(slots);
            },
            Some(k) => {
                assert(k@ == entries[done].0);
                match left.next_value() {
                    Ok(v) => {
                        assert(v@ == entries[done].1);
                        match k.deserialize_identifier() {
                            Ok(name) => match find_field(fields, &name) {
                                Some(at) => {
                                    if slots[at].is_some() {
                                        return Err(Error::Bad);
                                    }
                                    let mut sub = Deserializer::from_value(v);
                                    match decode(&fields[at].1, &mut sub) {
                                        Ok(d) => {
                                            slots.set(at, Some(d));
                                            assert(slot_views(slots@) =~= before.update(
                                                at as int,
                                                Some(d@),
                                            ));
                                            assert(left.keys_view() =~= keys_of(entries).skip(
                                                done + 1,
                                            ));
                                            assert(left.vals_view() =~= vals_of(entries).skip(
                                                done + 1,
                                            ));
                                            proof {
                                                done = done + 1;
                                            }
                                        },
                                        Err(e) => {
                                            return Err(e);
                                        },
                                    }
                                },
                                None => {
                                    return Err(Error::Bad);
                                },
                            },
                            Err(e) => {
                                return Err(e);
                            },
                        }
                    },
                    Err(e) => {
                        return Err(e);
                    },
                }
            },
        }
    }
}

/// Decodes the next node of `de` under `shape`. The text of `de` is read at
/// most once, and its slot is empty afterwards.
#[verifier::rlimit(60)]
pub fn decode(shape: &Shape, de: &mut Deserializer) -> (r: Result<Decoded, Error>)
    ensures
        result_view(r) == through(old(de).next(), |v: ValueView| decode_spec(*shape, v)),
        final(de).lookahead() is None,
        final(de).source() == old(de).after(),
    decreases shape, 1int,
{
    match shape {
        Shape::Bool => match de.deserialize_bool() {
            Ok(b) => Ok(Decoded::Bool(b)),
            Err(e) => Err(e),
        },
        Shape::I8 => match de.deserialize_i8() {
            Ok(x) => Ok(Decoded::I8(x)),
            Err(e) => Err(e),
        },
        Shape::I16 => match de.deserialize_i16() {
            Ok(x) => Ok(Decoded::I16(x)),
            Err(e) => Err(e),
        },
        Shape::I32 => match de.deserialize_i32() {
            Ok(x) => Ok(Decoded::I32(x)),
            Err(e) => Err(e),
        },
        Shape::I64 => match de.deserialize_i64() {
            Ok(x) => Ok(Decoded::I64(x)),
            Err(e) => Err(e),
        },
        Shape::U8 => match de.deserialize_u8() {
            Ok(x) => Ok(Decoded::U8(x)),
            Err(e) => Err(e),
        },
        Shape::U16 => match de.deserialize_u16() {
            Ok(x) => Ok(Decoded::U16(x)),
            Err(e) => Err(e),
        },
        Shape::U32 => match de.deserialize_u32() {
            Ok(x) => Ok(Decoded::U32(x)),
            Err(e) => Err(e),
        },
        Shape::U64 => match de.deserialize_u64() {
            Ok(x) => Ok(Decoded::U64(x)),
            Err(e) => Err(e),
        },
        Shape::F64 => match de.deserialize_f64() {
            Ok(bits) => Ok(Decoded::F64(bits)),
            Err(e) => Err(e),
        },
        Shape::Char => match de.deserialize_char() {
            Ok(c) => Ok(Decoded::Char(c)),
            Err(e) => Err(e),
        },
        Shape::String => match de.deserialize_string() {
            Ok(s) => Ok(Decoded::String(s)),
            Err(e) => Err(e),
        },
        Shape::Optional(inner) => match de.deserialize_option() {
            Ok(present) => if present {
                match decode(inner, de) {
                    Ok(d) => Ok(Decoded::Present(Box::new(d))),
                    Err(e) => Err(e),
                }
            } else {
                Ok(Decoded::Absent)
            },
            Err(e) => Err(e),
        },
        Shape::Unit => match de.deserialize_unit() {
            Ok(_) => Ok(Decoded::Unit),
            Err(e) => Err(e),
        },
        Shape::UnitStruct(name) => match de.deserialize_unit_struct(name.as_str()) {
            Ok(_) => Ok(Decoded::Unit),
            Err(e) => Err(e),
        },
        Shape::NewtypeStruct(name, inner) => match de.deserialize_newtype_struct(name.as_str()) {
            Ok(_) => match decode(inner, de) {
                Ok(d) => Ok(Decoded::Newtype(Box::new(d))),
                Err(e) => Err(e),
            },
            Err(e) => Err(e),
        },
        Shape::Sequence(element) => match de.deserialize_seq() {
            Ok(cursor) => match decode_elements(element, cursor) {
                Ok(items) => Ok(Decoded::Sequence(items)),
                Err(e) => Err(e),
            },
            Err(e) => Err(e),
        },
        Shape::Tuple(shapes) => match de.deserialize_tuple(shapes.len()) {
            Ok(cursor) => match decode_places(shapes, cursor) {
                Ok(items) => Ok(Decoded::Tuple(items)),
                Err(e) => Err(e),
            },
            Err(e) => Err(e),
        },
        Shape::TupleStruct(name, shapes) => match de.deserialize_tuple_struct(
            name.as_str(),
            shapes.len(),
        ) {
            Ok(cursor) => match decode_places(shapes, cursor) {
                Ok(items) => Ok(Decoded::Tuple(items)),
                Err(e) => Err(e),
            },
            Err(e) => Err(e),
        },
        Shape::Mapping(_, _) => {
            let ghost node = old(de).next();
            match de.deserialize_map() {
                Ok(store) => {
                    let ghost entries = as_map(node->Ok_0)->Ok_0;
                    match decode_pairs(shape, store, Ghost(entries)) {
                        Ok(items) => Ok(Decoded::Mapping(items)),
                        Err(e) => Err(e),
                    }
                },
                Err(e) => Err(e),
            }
        },
        Shape::Struct(name, fields) => {
            let ghost node = old(de).next();
            let names = field_names(fields);
            match de.deserialize_struct(name.as_str(), &names) {
                Ok(store) => {
                    let ghost entries = as_map(node->Ok_0)->Ok_0;
                    match decode_record(fields, store, Ghost(entries)) {
                        Ok(items) => Ok(Decoded::Record(items)),
                        Err(e) => Err(e),
                    }
                },
                Err(e) => Err(e),
            }
        },
        Shape::Identifier => match de.deserialize_identifier() {
            Ok(s) => Ok(Decoded::Identifier(s)),
            Err(e) => Err(e),
        },
        Shape::Any => match de.deserialize_any() {
            Ok(visit) => Ok(Decoded::Dynamic(visit.into_value())),
            Err(e) => Err(e),
        },
    }
}

/// The names of `fields`, in their order.
fn field_names(fields: &Vec<(String, Shape)>) -> (r: Vec<String>)
    ensures
        r@.len() == fields@.len(),
        forall|i: int| 0 <= i < r@.len() ==> (#[trigger] r@[i])@ == fields@[i].0@,
{
    let mut out: Vec<String> = Vec::new();
    let mut i: usize = 0;
    while i < fields.len()
        invariant
            i <= fields.len(),
            out@.len() == i,
            forall|k: int| 0 <= k < out@.len() ==> (#[trigger] out@[k])@ == fields@[k].0@,
        decreases fields.len() - i,
    {
        out.push(fields[i].0.clone());
        i += 1;
    }
    out
}

/// Decodes the first value that `s` holds under `shape`. What follows that
/// value in `s` plays no part.
pub fn from_str(s: &str, shape: &Shape) -> (r: Result<Decoded, Error>)
    ensures
        result_view(r) == through(read_node(s@), |v: ValueView| decode_spec(*shape, v)),
{
    let mut deserializer = Deserializer::from_str(s);
    decode(shape, &mut deserializer)
}

} // verus!

//! The decoder: a text to read nodes from, a slot that holds one node that
//! was read and not yet decoded, and one operation for each expected shape.

use crate::cursor::{ListAccess, MapStore};
use crate::error::Error;
use crate::reader::{read, read_end, read_node};
use crate::value::de::{
    as_any, as_bool, as_char, as_float, as_identifier, as_integer, as_map, as_newtype_struct,
    as_option, as_seq, as_string, as_tuple, as_unit, as_unit_struct, visit_view, Visit,
    VisitView,
};
use crate::value::{float_rank, keys_of, vals_of, Value, ValueView};
use vstd::prelude::*;

verus! {

/// A decoder over a text.
pub struct Deserializer<'a> {
    rest: &'a str,
    slot: Option<Value>,
}

/// What a shape makes of the next node: the failure to get a node, or what
/// the shape makes of the node that came.
pub open spec fn through<T>(
    node: Result<ValueView, Error>,
    shape: spec_fn(ValueView) -> Result<T, Error>,
) -> Result<T, Error> {
    match node {
        Ok(v) => shape(v),
        Err(e) => Err(e),
    }
}

impl<'a> Deserializer<'a> {
    /// The text that has not been read yet.
    pub closed spec fn source(&self) -> Seq<char> {
        self.rest@
    }

    /// The node in the slot, if there is one.
    pub closed spec fn lookahead(&self) -> Option<ValueView> {
        match self.slot {
            Some(v) => Some(v@),
            None => None,
        }
    }

    /// The node that the next operation gets: the one in the slot, else the
    /// one that a read of the text gives.
    pub open spec fn next(&self) -> Result<ValueView, Error> {
        match self.lookahead() {
            Some(v) => Ok(v),
            None => read_node(self.source()),
        }
    }

    /// The text that is left once the next operation has its node: all of
    /// it where the node comes from the slot.
    pub open spec fn after(&self) -> Seq<char> {
        match self.lookahead() {
            Some(_) => self.source(),
            None => self.source().skip(read_end(self.source())),
        }
    }

    /// A decoder over `input`, with nothing in its slot.
    pub fn from_str(input: &'a str) -> (r: Deserializer<'a>)
        ensures
            r.source() == input@,
            r.lookahead() is None,
    {
        Deserializer { rest: input, slot: None }
    }

    /// A decoder with `v` in its slot and no text behind it.
    pub fn from_value(v: Value) -> (r: Deserializer<'static>)
        ensures
            r.source() == Seq::<char>::empty(),
            r.lookahead() == Some(v@),
    {
        let empty: &'static str = "";
        proof {
            reveal_strlit("");
        }
        assert(empty@ =~= Seq::<char>::empty());
        Deserializer { rest: empty, slot: Some(v) }
    }

    /// Gives the next node: the one in the slot, which is then empty, else
    /// the one that a read of the text gives. The text is read at most once.
    pub fn read_parsed(&mut self) -> (r: Result<Value, Error>)
        ensures
            match r {
                Ok(v) => old(self).next() == Ok::<ValueView, Error>(v@),
                Err(e) => old(self).next() == Err::<ValueView, Error>(e),
            },
            final(self).lookahead() is None,
            final(self).source() == old(self).after(),
    {
        match self.slot.take() {
            Some(v) => Ok(v),
            None => {
                let (node, left) = read(self.rest);
                self.rest = left;
                node
            },
        }
    }

    /// Decodes the next node with no shape expected: every node is accepted,
    /// and handed over by its own variant.
    pub fn deserialize_any(&mut self) -> (r: Result<Visit, Error>)
        ensures
            visit_view(r) == through(
                old(self).next(),
                |v: ValueView| Ok::<VisitView, Error>(as_any(v)),
            ),
            final(self).lookahead() is None,
            final(self).source() == old(self).after(),
    {
        match self.read_parsed() {
            Ok(v) => v.deserialize_any(),
            Err(e) => Err(e),
        }
    }

    /// Decodes the next node as a boolean.
    pub fn deserialize_bool(&mut self) -> (r: Result<bool, Error>)
        ensures
            r == through(old(self).next(), |v: ValueView| as_bool(v)),
            final(self).lookahead() is None,
            final(self).source() == old(self).after(),
    {
        match self.read_parsed() {
            Ok(v) => v.deserialize_bool(),
            Err(e) => Err(e),
        }
    }

    /// Decodes the next node as an `i8`.
    pub fn deserialize_i8(&mut self) -> (r: Result<i8, Error>)
        ensures
            match r {
                Ok(x) => through(
                    old(self).next(),
                    |v: ValueView| as_integer(v, i8::MIN as int, i8::MAX as int),
                ) == Ok::<int, Error>(x as int),
                Err(e) => through(
                    old(self).next(),
                    |v: ValueView| as_integer(v, i8::MIN as int, i8::MAX as int),
                ) == Err::<int, Error>(e),
            },
            final(self).lookahead() is None,
            final(self).source() == old(self).after(),
    {
        match self.read_parsed() {
            Ok(v) => v.deserialize_i8(),
            Err(e) => Err(e),
        }
    }

    /// Decodes the next node as an `i16`.
    pub fn deserialize_i16(&mut self) -> (r: Result<i16, Error>)
        ensures
            match r {
                Ok(x) => through(
                    old(self).next(),
                    |v: ValueView| as_integer(v, i16::MIN as int, i16::MAX as int),
                ) == Ok::<int, Error>(x as int),
                Err(e) => through(
                    old(self).next(),
                    |v: ValueView| as_integer(v, i16::MIN as int, i16::MAX as int),
                ) == Err::<int, Error>(e),
            },
            final(self).lookahead() is None,
            final(self).source() == old(self).after(),
    {
        match self.read_parsed() {
            Ok(v) => v.deserialize_i16(),
            Err(e) => Err(e),
        }
    }

    /// Decodes the next node as an `i32`.
    pub fn deserialize_i32(&mut self) -> (r: Result<i32, Error>)
        ensures
            match r {
                Ok(x) => through(
                    old(self).next(),
                    |v: ValueView| as_integer(v, i32::MIN as int, i32::MAX as int),
                ) == Ok::<int, Error>(x as int),
                Err(e) => through(
                    old(self).next(),
                    |v: ValueView| as_integer(v, i32::MIN as int, i32::MAX as int),
                ) == Err::<int, Error>(e),
            },
            final(self).lookahead() is None,
            final(self).source() == old(self).after(),
    {
        match self.read_parsed() {
            Ok(v) => v.deserialize_i32(),
            Err(e) => Err(e),
        }
    }

    /// Decodes the next node as an `i64`.
    pub fn deserialize_i64(&mut self) -> (r: Result<i64, Error>)
        ensures
            match r {
                Ok(x) => through(
                    old(self).next(),
                    |v: ValueView| as_integer(v, i64::MIN as int, i64::MAX as int),
                ) == Ok::<int, Error>(x as int),
                Err(e) => through(
                    old(self).next(),
                    |v: ValueView| as_integer(v, i64::MIN as int, i64::MAX as int),
                ) == Err::<int, Error>(e),
            },
            final(self).lookahead() is None,
            final(self).source() == old(self).after(),
    {
        match self.read_parsed() {
            Ok(v) => v.deserialize_i64(),
            Err(e) => Err(e),
        }
    }

    /// Decodes the next node as an `u8`.
    pub fn deserialize_u8(&mut self) -> (r: Result<u8, Error>)
        ensures
            match r {
                Ok(x) => through(
                    old(self).next(),
                    |v: ValueView| as_integer(v, 0, u8::MAX as int),
                ) == Ok::<int, Error>(x as int),
                Err(e) => through(
                    old(self).next(),
                    |v: ValueView| as_integer(v, 0, u8::MAX as int),
                ) == Err::<int, Error>(e),
            },
            final(self).lookahead() is None,
            final(self).source() == old(self).after(),
    {
        match self.read_parsed() {
            Ok(v) => v.deserialize_u8(),
            Err(e) => Err(e),
        }
    }

    /// Decodes the next node as an `u16`.
    pub fn deserialize_u16(&mut self) -> (r: Result<u16, Error>)
        ensures
            match r {
                Ok(x) => through(
                    old(self).next(),
                    |v: ValueView| as_integer(v, 0, u16::MAX as int),
                ) == Ok::<int, Error>(x as int),
                Err(e) => through(
                    old(self).next(),
                    |v: ValueView| as_integer(v, 0, u16::MAX as int),
                ) == Err::<int, Error>(e),
            },
            final(self).lookahead() is None,
            final(self).source() == old(self).after(),
    {
        match self.read_parsed() {
            Ok(v) => v.deserialize_u16(),
            Err(e) => Err(e),
        }
    }

    /// Decodes the next node as an `u32`.
    pub fn deserialize_u32(&mut self) -> (r: Result<u32, Error>)
        ensures
            match r {
                Ok(x) => through(
                    old(self).next(),
                    |v: ValueView| as_integer(v, 0, u32::MAX as int),
                ) == Ok::<int, Error>(x as int),
                Err(e) => through(
                    old(self).next(),
                    |v: ValueView| as_integer(v, 0, u32::MAX as int),
                ) == Err::<int, Error>(e),
            },
            final(self).lookahead() is None,
            final(self).source() == old(self).after(),
    {
        match self.read_parsed() {
            Ok(v) => v.deserialize_u32(),
            Err(e) => Err(e),
        }
    }

    /// Decodes the next node as an `u64`.
    pub fn deserialize_u64(&mut self) -> (r: Result<u64, Error>)
        ensures
            match r {
                Ok(x) => through(
                    old(self).next(),
                    |v: ValueView| as_integer(v, 0, u64::MAX as int),
                ) == Ok::<int, Error>(x as int),
                Err(e) => through(
                    old(self).next(),
                    |v: ValueView| as_integer(v, 0, u64::MAX as int),
                ) == Err::<int, Error>(e),
            },
            final(self).lookahead() is None,
            final(self).source() == old(self).after(),
    {
        match self.read_parsed() {
            Ok(v) => v.deserialize_u64(),
            Err(e) => Err(e),
        }
    }

    /// Decodes the next node as a 64-bit float, and gives the float's bit
    /// pattern.
    pub fn deserialize_f64(&mut self) -> (r: Result<u64, Error>)
        ensures
            match r {
                Ok(bits) => through(old(self).next(), |v: ValueView| as_float(v)) == Ok::<
                    int,
                    Error,
                >(float_rank(bits)),
                Err(e) => through(old(self).next(), |v: ValueView| as_float(v)) == Err::<
                    int,
                    Error,
                >(e),
            },
            final(self).lookahead() is None,
            final(self).source() == old(self).after(),
    {
        match self.read_parsed() {
            Ok(v) => v.deserialize_f64(),
            Err(e) => Err(e),
        }
    }

    /// Decodes the next node as a character.
    pub fn deserialize_char(&mut self) -> (r: Result<char, Error>)
        ensures
            r == through(old(self).next(), |v: ValueView| as_char(v)),
            final(self).lookahead() is None,
            final(self).source() == old(self).after(),
    {
        match self.read_parsed() {
            Ok(v) => v.deserialize_char(),
            Err(e) => Err(e),
        }
    }

    /// Decodes the next node as a string.
    pub fn deserialize_string(&mut self) -> (r: Result<String, Error>)
        ensures
            match r {
                Ok(s) => through(old(self).next(), |v: ValueView| as_string(v)) == Ok::<
                    Seq<char>,
                    Error,
                >(s@),
                Err(e) => through(old(self).next(), |v: ValueView| as_string(v)) == Err::<
                    Seq<char>,
                    Error,
                >(e),
            },
            final(self).lookahead() is None,
            final(self).source() == old(self).after(),
    {
        match self.read_parsed() {
            Ok(v) => v.deserialize_string(),
            Err(e) => Err(e),
        }
    }

    /// Decodes the next node as a string; the same as `deserialize_string`.
    pub fn deserialize_str(&mut self) -> (r: Result<String, Error>)
        ensures
            match r {
                Ok(s) => through(old(self).next(), |v: ValueView| as_string(v)) == Ok::<
                    Seq<char>,
                    Error,
                >(s@),
                Err(e) => through(old(self).next(), |v: ValueView| as_string(v)) == Err::<
                    Seq<char>,
                    Error,
                >(e),
            },
            final(self).lookahead() is None,
            final(self).source() == old(self).after(),
    {
        self.deserialize_string()
    }

    /// Decodes the next node as the name of a field or of a variant.
    pub fn deserialize_identifier(&mut self) -> (r: Result<String, Error>)
        ensures
            match r {
                Ok(s) => through(old(self).next(), |v: ValueView| as_identifier(v)) == Ok::<
                    Seq<char>,
                    Error,
                >(s@),
                Err(e) => through(old(self).next(), |v: ValueView| as_identifier(v)) == Err::<
                    Seq<char>,
                    Error,
                >(e),
            },
            final(self).lookahead() is None,
            final(self).source() == old(self).after(),
    {
        match self.read_parsed() {
            Ok(v) => v.deserialize_identifier(),
            Err(e) => Err(e),
        }
    }

    /// Decodes the next node as an optional value, and says whether it is
    /// present. A present node goes back into the slot, where the inner
    /// shape finds it.
    pub fn deserialize_option(&mut self) -> (r: Result<bool, Error>)
        ensures
            match old(self).next() {
                Ok(v) => r == Ok::<bool, Error>(as_option(v) is Some) && final(self).lookahead()
                    == as_option(v),
                Err(e) => r == Err::<bool, Error>(e) && final(self).lookahead() is None,
            },
            final(self).source() == old(self).after(),
    {
        match self.read_parsed() {
            Ok(v) => match v.deserialize_option() {
                Some(inner) => {
                    self.slot = Some(inner);
                    Ok(true)
                },
                None => Ok(false),
            },
            Err(e) => Err(e),
        }
    }

    /// Decodes the next node as the unit value.
    pub fn deserialize_unit(&mut self) -> (r: Result<(), Error>)
        ensures
            r == through(old(self).next(), |v: ValueView| as_unit(v)),
            final(self).lookahead() is None,
            final(self).source() == old(self).after(),
    {
        match self.read_parsed() {
            Ok(v) => v.deserialize_unit(),
            Err(e) => Err(e),
        }
    }

    /// Decodes the next node as the record `name` that has no fields.
    pub fn deserialize_unit_struct(&mut self, name: &str) -> (r: Result<(), Error>)
        ensures
            r == through(old(self).next(), |v: ValueView| as_unit_struct(v, name@)),
            final(self).lookahead() is None,
            final(self).source() == old(self).after(),
    {
        match self.read_parsed() {
            Ok(v) => v.deserialize_unit_struct(name),
            Err(e) => Err(e),
        }
    }

    /// Decodes the next node as a wrapper around one value. The node that
    /// the wrapped shape is to decode goes into the slot.
    pub fn deserialize_newtype_struct(&mut self, name: &str) -> (r: Result<(), Error>)
        ensures
            match through(old(self).next(), |v: ValueView| as_newtype_struct(v)) {
                Ok(inner) => r == Ok::<(), Error>(()) && final(self).lookahead() == Some(inner),
                Err(e) => r == Err::<(), Error>(e) && final(self).lookahead() is None,
            },
            final(self).source() == old(self).after(),
    {
        match self.read_parsed() {
            Ok(v) => match v.deserialize_newtype_struct(name) {
                Ok(inner) => {
                    self.slot = Some(inner);
                    Ok(())
                },
                Err(e) => Err(e),
            },
            Err(e) => Err(e),
        }
    }

    /// Decodes the next node as a sequence, and gives a cursor over its
    /// elements.
    pub fn deserialize_seq(&mut self) -> (r: Result<ListAccess, Error>)
        ensures
            match r {
                Ok(cursor) => through(old(self).next(), |v: ValueView| as_seq(v)) == Ok::<
                    Seq<ValueView>,
                    Error,
                >(cursor@),
                Err(e) => through(old(self).next(), |v: ValueView| as_seq(v)) == Err::<
                    Seq<ValueView>,
                    Error,
                >(e),
            },
            final(self).lookahead() is None,
            final(self).source() == old(self).after(),
    {
        match self.read_parsed() {
            Ok(v) => v.deserialize_seq(),
            Err(e) => Err(e),
        }
    }

    /// Decodes the next node as a tuple of `len` elements, and gives a
    /// cursor over them.
    pub fn deserialize_tuple(&mut self, len: usize) -> (r: Result<ListAccess, Error>)
        ensures
            match r {
                Ok(cursor) => through(old(self).next(), |v: ValueView| as_tuple(v, len as nat))
                    == Ok::<Seq<ValueView>, Error>(cursor@),
                Err(e) => through(old(self).next(), |v: ValueView| as_tuple(v, len as nat))
                    == Err::<Seq<ValueView>, Error>(e),
            },
            final(self).lookahead() is None,
            final(self).source() == old(self).after(),
    {
        match self.read_parsed() {
            Ok(v) => v.deserialize_tuple(len),
            Err(e) => Err(e),
        }
    }

    /// Decodes the next node as a named tuple of `len` elements; the name
    /// plays no part.
    pub fn deserialize_tuple_struct(&mut self, name: &str, len: usize) -> (r: Result<
        ListAccess,
        Error,
    >)
        ensures
            match r {
                Ok(cursor) => through(old(self).next(), |v: ValueView| as_tuple(v, len as nat))
                    == Ok::<Seq<ValueView>, Error>(cursor@),
                Err(e) => through(old(self).next(), |v: ValueView| as_tuple(v, len as nat))
                    == Err::<Seq<ValueView>, Error>(e),
            },
            final(self).lookahead() is None,
            final(self).source() == old(self).after(),
    {
        match self.read_parsed() {
            Ok(v) => v.deserialize_tuple_struct(name, len),
            Err(e) => Err(e),
        }
    }

    /// Decodes the next node as a mapping, and gives a cursor over its
    /// entries.
    pub fn deserialize_map(&mut self) -> (r: Result<MapStore, Error>)
        ensures
            match r {
                Ok(cursor) => through(old(self).next(), |v: ValueView| as_map(v)) matches Ok(
                    entries,
                ) && cursor.keys_view() == keys_of(entries) && cursor.vals_view() == vals_of(
                    entries,
                ),
                Err(e) => through(old(self).next(), |v: ValueView| as_map(v)) == Err::<
                    Seq<(ValueView, ValueView)>,
                    Error,
                >(e),
            },
            final(self).lookahead() is None,
            final(self).source() == old(self).after(),
    {
        match self.read_parsed() {
            Ok(v) => v.deserialize_map(),
            Err(e) => Err(e),
        }
    }

    /// Decodes the next node as a record with named fields: a mapping whose
    /// keys are to be decoded as identifiers.
    pub fn deserialize_struct(&mut self, name: &str, fields: &Vec<String>) -> (r: Result<
        MapStore,
        Error,
    >)
        ensures
            match r {
                Ok(cursor) => through(old(self).next(), |v: ValueView| as_map(v)) matches Ok(
                    entries,
                ) && cursor.keys_view() == keys_of(entries) && cursor.vals_view() == vals_of(
                    entries,
                ),
                Err(e) => through(old(self).next(), |v: ValueView| as_map(v)) == Err::<
                    Seq<(ValueView, ValueView)>,
                    Error,
                >(e),
            },
            final(self).lookahead() is None,
            final(self).source() == old(self).after(),
    {
        self.deserialize_map()
    }

    /// Byte strings are not among the shapes that can be decoded: this fails
    /// with `Bad`, and leaves the decoder as it is.
    pub fn deserialize_bytes(&mut self) -> (r: Result<(), Error>)
        ensures
            r == Err::<(), Error>(Error::Bad),
            *final(self) == *old(self),
    {
        Err(Error::Bad)
    }

    /// Byte strings are not among the shapes that can be decoded: this fails
    /// with `Bad`, and leaves the decoder as it is.
    pub fn deserialize_byte_buf(&mut self) -> (r: Result<(), Error>)
        ensures
            r == Err::<(), Error>(Error::Bad),
            *final(self) == *old(self),
    {
        Err(Error::Bad)
    }

    /// Variants that hold data are not among the shapes that can be
    /// decoded: this fails with `Bad`, and leaves the decoder as it is.
    pub fn deserialize_enum(&mut self, name: &str, variants: &Vec<String>) -> (r: Result<
        (),
        Error,
    >)
        ensures
            r == Err::<(), Error>(Error::Bad),
            *final(self) == *old(self),
    {
        Err(Error::Bad)
    }

    /// Skipping a node is not among the shapes that can be decoded: this
    /// fails with `Bad`, and leaves the decoder as it is.
    pub fn deserialize_ignored_any(&mut self) -> (r: Result<(), Error>)
        ensures
            r == Err::<(), Error>(Error::Bad),
            *final(self) == *old(self),
    {
        Err(Error::Bad)
    }
}

} // verus!

//! Range-checked narrowing of the tree's 64-bit integers.
//!
//! The casts themselves are made by `num_traits`; each is called through a
//! function below whose contract states what `num_traits` documents for it.

use crate::error::Error;
use vstd::prelude::*;

verus! {

/// What narrowing `i` to the integers from `lo` to `hi` gives: `i` itself
/// where it lies in that range, `NumericOutOfBounds` otherwise.
pub open spec fn narrow(i: int, lo: int, hi: int) -> Result<int, Error> {
    if lo <= i <= hi {
        Ok(i)
    } else {
        Err(Error::NumericOutOfBounds)
    }
}

/// Calls `num_traits::cast` from `i64` to `i8`. Believed of it: the result is
/// the argument where the argument lies within `i8`, and nothing otherwise.
#[verifier::external_body]
fn cast_i8(i: i64) -> (r: Option<i8>)
    ensures
        r is Some <==> i8::MIN <= i <= i8::MAX,
        r matches Some(x) ==> x == i,
{
    num_traits::cast::<i64, i8>(i)
}

/// Calls `num_traits::cast` from `i64` to `i16`. Believed of it: the result
/// is the argument where the argument lies within `i16`, and nothing
/// otherwise.
#[verifier::external_body]
fn cast_i16(i: i64) -> (r: Option<i16>)
    ensures
        r is Some <==> i16::MIN <= i <= i16::MAX,
        r matches Some(x) ==> x == i,
{
    num_traits::cast::<i64, i16>(i)
}

/// Calls `num_traits::cast` from `i64` to `i32`. Believed of it: the result
/// is the argument where the argument lies within `i32`, and nothing
/// otherwise.
#[verifier::external_body]
fn cast_i32(i: i64) -> (r: Option<i32>)
    ensures
        r is Some <==> i32::MIN <= i <= i32::MAX,
        r matches Some(x) ==> x == i,
{
    num_traits::cast::<i64, i32>(i)
}

/// Calls `num_traits::cast` from `i64` to `i64`. Believed of it: the result
/// is always the argument.
#[verifier::external_body]
fn cast_i64(i: i64) -> (r: Option<i64>)
    ensures
        r == Some(i),
{
    num_traits::cast::<i64, i64>(i)
}

/// Calls `num_traits::cast` from `i64` to `u8`. Believed of it: the result is
/// the argument where the argument lies within `u8`, and nothing otherwise.
#[verifier::external_body]
fn cast_u8(i: i64) -> (r: Option<u8>)
    ensures
        r is Some <==> 0 <= i <= u8::MAX,
        r matches Some(x) ==> x == i,
{
    num_traits::cast::<i64, u8>(i)
}

/// Calls `num_traits::cast` from `i64` to `u16`. Believed of it: the result
/// is the argument where the argument lies within `u16`, and nothing
/// otherwise.
#[verifier::external_body]
fn cast_u16(i: i64) -> (r: Option<u16>)
    ensures
        r is Some <==> 0 <= i <= u16::MAX,
        r matches Some(x) ==> x == i,
{
    num_traits::cast::<i64, u16>(i)
}

/// Calls `num_traits::cast` from `i64` to `u32`. Believed of it: the result
/// is the argument where the argument lies within `u32`, and nothing
/// otherwise.
#[verifier::external_body]
fn cast_u32(i: i64) -> (r: Option<u32>)
    ensures
        r is Some <==> 0 <= i <= u32::MAX,
        r matches Some(x) ==> x == i,
{
    num_traits::cast::<i64, u32>(i)
}

/// Calls `num_traits::cast` from `i64` to `u64`. Believed of it: the result
/// is the argument where the argument is not negative, and nothing
/// otherwise.
#[verifier::external_body]
fn cast_u64(i: i64) -> (r: Option<u64>)
    ensures
        r is Some <==> 0 <= i,
        r matches Some(x) ==> x == i,
{
    num_traits::cast::<i64, u64>(i)
}

/// Narrows to 8 bits, signed.
pub fn narrow_i8(i: i64) -> (r: Result<i8, Error>)
    ensures
        match r {
            Ok(x) => narrow(i as int, i8::MIN as int, i8::MAX as int) == Ok::<int, Error>(x as int),
            Err(e) => narrow(i as int, i8::MIN as int, i8::MAX as int) == Err::<int, Error>(e),
        },
{
    match cast_i8(i) {
        Some(x) => Ok(x),
        None => Err(Error::NumericOutOfBounds),
    }
}

/// Narrows to 16 bits, signed.
pub fn narrow_i16(i: i64) -> (r: Result<i16, Error>)
    ensures
        match r {
            Ok(x) => narrow(i as int, i16::MIN as int, i16::MAX as int) == Ok::<int, Error>(
                x as int,
            ),
            Err(e) => narrow(i as int, i16::MIN as int, i16::MAX as int) == Err::<int, Error>(e),
        },
{
    match cast_i16(i) {
        Some(x) => Ok(x),
        None => Err(Error::NumericOutOfBounds),
    }
}

/// Narrows to 32 bits, signed.
pub fn narrow_i32(i: i64) -> (r: Result<i32, Error>)
    ensures
        match r {
            Ok(x) => narrow(i as int, i32::MIN as int, i32::MAX as int) == Ok::<int, Error>(
                x as int,
            ),
            Err(e) => narrow(i as int, i32::MIN as int, i32::MAX as int) == Err::<int, Error>(e),
        },
{
    match cast_i32(i) {
        Some(x) => Ok(x),
        None => Err(Error::NumericOutOfBounds),
    }
}

/// Narrows to 64 bits, signed: every integer of the tree fits.
pub fn narrow_i64(i: i64) -> (r: Result<i64, Error>)
    ensures
        r == Ok::<i64, Error>(i),
        narrow(i as int, i64::MIN as int, i64::MAX as int) == Ok::<int, Error>(i as int),
{
    match cast_i64(i) {
        Some(x) => Ok(x),
        None => Err(Error::NumericOutOfBounds),
    }
}

/// Narrows to 8 bits, unsigned.
pub fn narrow_u8(i: i64) -> (r: Result<u8, Error>)
    ensures
        match r {
            Ok(x) => narrow(i as int, 0, u8::MAX as int) == Ok::<int, Error>(x as int),
            Err(e) => narrow(i as int, 0, u8::MAX as int) == Err::<int, Error>(e),
        },
{
    match cast_u8(i) {
        Some(x) => Ok(x),
        None => Err(Error::NumericOutOfBounds),
    }
}

/// Narrows to 16 bits, unsigned.
pub fn narrow_u16(i: i64) -> (r: Result<u16, Error>)
    ensures
        match r {
            Ok(x) => narrow(i as int, 0, u16::MAX as int) == Ok::<int, Error>(x as int),
            Err(e) => narrow(i as int, 0, u16::MAX as int) == Err::<int, Error>(e),
        },
{
    match cast_u16(i) {
        Some(x) => Ok(x),
        None => Err(Error::NumericOutOfBounds),
    }
}

/// Narrows to 32 bits, unsigned.
pub fn narrow_u32(i: i64) -> (r: Result<u32, Error>)
    ensures
        match r {
            Ok(x) => narrow(i as int, 0, u32::MAX as int) == Ok::<int, Error>(x as int),
            Err(e) => narrow(i as int, 0, u32::MAX as int) == Err::<int, Error>(e),
        },
{
    match cast_u32(i) {
        Some(x) => Ok(x),
        None => Err(Error::NumericOutOfBounds),
    }
}

/// Narrows to 64 bits, unsigned.
pub fn narrow_u64(i: i64) -> (r: Result<u64, Error>)
    ensures
        match r {
            Ok(x) => narrow(i as int, 0, u64::MAX as int) == Ok::<int, Error>(x as int),
            Err(e) => narrow(i as int, 0, u64::MAX as int) == Err::<int, Error>(e),
        },
{
    match cast_u64(i) {
        Some(x) => Ok(x),
        None => Err(Error::NumericOutOfBounds),
    }
}

} // verus!

//! The tree as a reader hands it over, and the value that it stands for.
//!
//! A [`Raw`] tree holds the entries of a map and the members of a set in
//! whatever order they were handed over, and may hold a key or a member
//! twice. The value that the tree stands for has them in ascending order,
//! each once: of two entries with one key the later one stays.

use crate::sorted::{entries_of, lemma_entries_of, lemma_members_of, members_of, well_formed};
use crate::value::{
    float_rank, pair_views, views, Symbol, Tagged, TaggedView, Value, ValueView,
};
use vstd::prelude::*;

verus! {

/// One node of a tree as a reader hands it over.
#[derive(Debug, PartialEq, Eq)]
pub enum Raw {
    Nil,
    Boolean(bool),
    String(String),
    Char(char),
    Symbol(String),
    Keyword(String),
    Integer(i64),
    /// A 64-bit float, held as its IEEE 754 bit pattern.
    Float(u64),
    List(Vec<Raw>),
    Vector(Vec<Raw>),
    Mapping(Vec<(Raw, Raw)>),
    SetOf(Vec<Raw>),
    Tagged(String, Box<Raw>),
}

/// The values that the first `n` trees of `items` stand for.
pub open spec fn raw_values(items: Seq<Raw>, n: int) -> Seq<ValueView>
    decreases items, n,
{
    if n <= 0 || n > items.len() {
        Seq::empty()
    } else {
        raw_values(items, n - 1).push(raw_value(items[n - 1]))
    }
}

/// The pairs of values that the first `n` pairs of trees stand for.
pub open spec fn raw_pair_values(pairs: Seq<(Raw, Raw)>, n: int) -> Seq<(ValueView, ValueView)>
    decreases pairs, n,
{
    if n <= 0 || n > pairs.len() {
        Seq::empty()
    } else {
        raw_pair_values(pairs, n - 1).push((raw_value(pairs[n - 1].0), raw_value(pairs[n - 1].1)))
    }
}

/// The value that a tree stands for.
pub open spec fn raw_value(e: Raw) -> ValueView
    decreases e,
{
    match e {
        Raw::Nil => ValueView::Nil,
        Raw::Boolean(b) => ValueView::Bool(b),
        Raw::String(s) => ValueView::String(s@),
        Raw::Char(c) => ValueView::Char(c),
        Raw::Symbol(s) => ValueView::Symbol(s@),
        Raw::Keyword(s) => ValueView::Keyword(s@),
        Raw::Integer(i) => ValueView::Integer(i),
        Raw::Float(bits) => ValueView::Float(float_rank(bits)),
        Raw::List(items) => ValueView::List(raw_values(items@, items@.len() as int)),
        Raw::Vector(items) => ValueView::Vector(raw_values(items@, items@.len() as int)),
        Raw::Mapping(pairs) => ValueView::Mapping(
            entries_of(raw_pair_values(pairs@, pairs@.len() as int), pairs@.len() as int),
        ),
        Raw::SetOf(items) => ValueView::SetOf(
            members_of(raw_values(items@, items@.len() as int), items@.len() as int),
        ),
        Raw::Tagged(tag, inner) => ValueView::Tagged(
            TaggedView::User(tag@, Box::new(raw_value(*inner))),
        ),
    }
}

/// The values that the trees of `items` stand for, in their order.
fn values_from(items: Vec<Raw>) -> (r: Vec<Value>)
    ensures
        views(r@) == raw_values(items@, items@.len() as int),
    decreases items, 0int,
{
    let ghost all = items@;
    let mut out: Vec<Value> = Vec::new();
    for x in it: items
        invariant
            it.seq() == all,
            views(out@) == raw_values(all, it.index() as int),
    {
        let ghost before = views(out@);
        let v = Value::from(x);
        out.push(v);
        assert(views(out@) =~= before.push(v@));
    }
    out
}

/// The pairs of values that the pairs of trees of `pairs` stand for, in
/// their order.
fn pairs_from(pairs: Vec<(Raw, Raw)>) -> (r: Vec<(Value, Value)>)
    ensures
        pair_views(r@) == raw_pair_values(pairs@, pairs@.len() as int),
    decreases pairs, 0int,
{
    let ghost all = pairs@;
    let mut out: Vec<(Value, Value)> = Vec::new();
    for pair in it: pairs
        invariant
            it.seq() == all,
            pair_views(out@) == raw_pair_values(all, it.index() as int),
    {
        let ghost before = pair_views(out@);
        let (a, b) = pair;
        let k = Value::from(a);
        let v = Value::from(b);
        out.push((k, v));
        assert(pair_views(out@) =~= before.push((k@, v@)));
    }
    out
}

impl Value {
    /// The value that the tree `e` stands for.
    pub fn from(e: Raw) -> (r: Value)
        ensures
            r@ == raw_value(e),
            well_formed(r@),
        decreases e, 1int,
    {
        proof {
            lemma_raw_value_well_formed(e);
        }
        match e {
            Raw::Nil => Value::Nil,
            Raw::Boolean(b) => Value::Bool(b),
            Raw::String(s) => Value::String(s),
            Raw::Char(c) => Value::Char(c),
            Raw::Symbol(s) => Value::Symbol(Symbol::new(s)),
            Raw::Keyword(s) => Value::Keyword(s),
            Raw::Integer(i) => Value::Integer(i),
            Raw::Float(bits) => Value::Float(bits),
            Raw::List(items) => Value::List(values_from(items)),
            Raw::Vector(items) => Value::Vector(values_from(items)),
            Raw::Mapping(pairs) => {
                let converted = pairs_from(pairs);
                proof {
                    lemma_raw_pair_values(pairs@, pairs@.len() as int);
                }
                Value::map_from(converted)
            },
            Raw::SetOf(items) => {
                let converted = values_from(items);
                proof {
                    lemma_raw_values(items@, items@.len() as int);
                }
                Value::set_from(converted)
            },
            Raw::Tagged(tag, inner) => Value::Tagged(
                Tagged::User(Symbol::new(tag), Box::new(Value::from(*inner))),
            ),
        }
    }
}

/// The values that trees stand for are well formed, each of them.
proof fn lemma_raw_values(items: Seq<Raw>, n: int)
    requires
        0 <= n <= items.len(),
    ensures
        raw_values(items, n).len() == n,
        forall|i: int| 0 <= i < n ==> well_formed(#[trigger] raw_values(items, n)[i]),
    decreases items, n,
{
    if n > 0 {
        lemma_raw_values(items, n - 1);
        lemma_raw_value_well_formed(items[n - 1]);
    }
}

/// The pairs of values that pairs of trees stand for are well formed, each
/// of them.
proof fn lemma_raw_pair_values(pairs: Seq<(Raw, Raw)>, n: int)
    requires
        0 <= n <= pairs.len(),
    ensures
        raw_pair_values(pairs, n).len() == n,
        forall|i: int|
            0 <= i < n ==> well_formed((#[trigger] raw_pair_values(pairs, n)[i]).0) && well_formed(
                raw_pair_values(pairs, n)[i].1,
            ),
    decreases pairs, n,
{
    if n > 0 {
        lemma_raw_pair_values(pairs, n - 1);
        lemma_raw_value_well_formed(pairs[n - 1].0);
        lemma_raw_value_well_formed(pairs[n - 1].1);
    }
}

/// The value that a tree stands for is well formed.
pub proof fn lemma_raw_value_well_formed(e: Raw)
    ensures
        well_formed(raw_value(e)),
    decreases e,
{
    match e {
        Raw::List(items) => lemma_raw_values(items@, items@.len() as int),
        Raw::Vector(items) => lemma_raw_values(items@, items@.len() as int),
        Raw::SetOf(items) => {
            let n = items@.len() as int;
            lemma_raw_values(items@, n);
            lemma_members_of(raw_values(items@, n), n);
        },
        Raw::Mapping(pairs) => {
            let n = pairs@.len() as int;
            lemma_raw_pair_values(pairs@, n);
            lemma_entries_of(raw_pair_values(pairs@, n), n);
        },
        Raw::Tagged(_, inner) => lemma_raw_value_well_formed(*inner),
        _ => {},
    }
}

} // verus!

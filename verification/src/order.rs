//! The total order of values.
//!
//! Values of different variants are ordered by variant, in the order in which
//! the variants are declared. Values of one variant are ordered by what they
//! hold: text and collections lexicographically, numbers by size, floats by
//! their place in the order of floats.

use crate::text::chars_of;
use crate::value::{float_rank, pair_views, views, Tagged, TaggedView, Value, ValueView};
use vstd::prelude::*;

verus! {

/// How one value stands to another in the order.
#[derive(Debug, PartialEq, Eq, Clone, Copy, Structural)]
pub enum Rel {
    Before,
    Same,
    After,
}

/// The order of the integers.
pub open spec fn int_rel(a: int, b: int) -> Rel {
    if a < b {
        Rel::Before
    } else if a == b {
        Rel::Same
    } else {
        Rel::After
    }
}

/// The order of text from index `i` on: lexicographic, by code point.
pub open spec fn text_rel_from(a: Seq<char>, b: Seq<char>, i: int) -> Rel
    decreases a.len() - i,
{
    if i < 0 || i >= a.len() {
        if i >= b.len() {
            Rel::Same
        } else {
            Rel::Before
        }
    } else if i >= b.len() {
        Rel::After
    } else if a[i] == b[i] {
        text_rel_from(a, b, i + 1)
    } else {
        int_rel(a[i] as int, b[i] as int)
    }
}

/// The order of text.
pub open spec fn text_rel(a: Seq<char>, b: Seq<char>) -> Rel {
    text_rel_from(a, b, 0)
}

/// The place of a value's variant among the variants.
pub open spec fn variant_rank(v: ValueView) -> int {
    match v {
        ValueView::Nil => 0,
        ValueView::Bool(_) => 1,
        ValueView::String(_) => 2,
        ValueView::Char(_) => 3,
        ValueView::Symbol(_) => 4,
        ValueView::Keyword(_) => 5,
        ValueView::Integer(_) => 6,
        ValueView::Float(_) => 7,
        ValueView::List(_) => 8,
        ValueView::Vector(_) => 9,
        ValueView::Mapping(_) => 10,
        ValueView::SetOf(_) => 11,
        ValueView::Tagged(_) => 12,
    }
}

/// `first`, unless it is `Same`: then `second`.
pub open spec fn then_rel(first: Rel, second: Rel) -> Rel {
    match first {
        Rel::Same => second,
        _ => first,
    }
}

/// The order of values.
pub open spec fn rel(a: ValueView, b: ValueView) -> Rel
    decreases a, 0int,
{
    match (a, b) {
        (ValueView::Nil, ValueView::Nil) => Rel::Same,
        (ValueView::Bool(x), ValueView::Bool(y)) => int_rel(
            if x { 1int } else { 0int },
            if y { 1int } else { 0int },
        ),
        (ValueView::String(x), ValueView::String(y)) => text_rel(x, y),
        (ValueView::Char(x), ValueView::Char(y)) => int_rel(x as int, y as int),
        (ValueView::Symbol(x), ValueView::Symbol(y)) => text_rel(x, y),
        (ValueView::Keyword(x), ValueView::Keyword(y)) => text_rel(x, y),
        (ValueView::Integer(x), ValueView::Integer(y)) => int_rel(x as int, y as int),
        (ValueView::Float(x), ValueView::Float(y)) => int_rel(x, y),
        (ValueView::List(x), ValueView::List(y)) => seq_rel_from(x, y, 0),
        (ValueView::Vector(x), ValueView::Vector(y)) => seq_rel_from(x, y, 0),
        (ValueView::Mapping(x), ValueView::Mapping(y)) => pairs_rel_from(x, y, 0),
        (ValueView::SetOf(x), ValueView::SetOf(y)) => seq_rel_from(x, y, 0),
        (ValueView::Tagged(x), ValueView::Tagged(y)) => match (x, y) {
            (TaggedView::Inst(p), TaggedView::Inst(q)) => int_rel(p as int, q as int),
            (TaggedView::Inst(_), _) => Rel::Before,
            (TaggedView::UUID(_), TaggedView::Inst(_)) => Rel::After,
            (TaggedView::UUID(p), TaggedView::UUID(q)) => int_rel(p as int, q as int),
            (TaggedView::UUID(_), TaggedView::User(_, _)) => Rel::Before,
            (TaggedView::User(s, p), TaggedView::User(t, q)) => then_rel(
                text_rel(s, t),
                rel(*p, *q),
            ),
            (TaggedView::User(_, _), _) => Rel::After,
        },
        _ => int_rel(variant_rank(a), variant_rank(b)),
    }
}

/// The order of sequences of values from index `i` on: lexicographic.
pub open spec fn seq_rel_from(a: Seq<ValueView>, b: Seq<ValueView>, i: int) -> Rel
    decreases a, a.len() - i,
{
    if i < 0 || i >= a.len() {
        if i >= b.len() {
            Rel::Same
        } else {
            Rel::Before
        }
    } else if i >= b.len() {
        Rel::After
    } else {
        then_rel(rel(a[i], b[i]), seq_rel_from(a, b, i + 1))
    }
}

/// The order of sequences of entries from index `i` on: lexicographic, each
/// entry by its key and then by its value.
pub open spec fn pairs_rel_from(
    a: Seq<(ValueView, ValueView)>,
    b: Seq<(ValueView, ValueView)>,
    i: int,
) -> Rel
    decreases a, a.len() - i,
{
    if i < 0 || i >= a.len() {
        if i >= b.len() {
            Rel::Same
        } else {
            Rel::Before
        }
    } else if i >= b.len() {
        Rel::After
    } else {
        then_rel(
            then_rel(rel(a[i].0, b[i].0), rel(a[i].1, b[i].1)),
            pairs_rel_from(a, b, i + 1),
        )
    }
}

/// Orders two integers.
fn int_order(a: i128, b: i128) -> (r: Rel)
    ensures
        r == int_rel(a as int, b as int),
{
    if a < b {
        Rel::Before
    } else if a == b {
        Rel::Same
    } else {
        Rel::After
    }
}

/// Orders two characters, by code point.
fn char_order(a: char, b: char) -> (r: Rel)
    ensures
        r == int_rel(a as int, b as int),
{
    if a < b {
        Rel::Before
    } else if a == b {
        Rel::Same
    } else {
        Rel::After
    }
}

/// Orders two unsigned integers.
fn nat_order(a: u128, b: u128) -> (r: Rel)
    ensures
        r == int_rel(a as int, b as int),
{
    if a < b {
        Rel::Before
    } else if a == b {
        Rel::Same
    } else {
        Rel::After
    }
}

/// The place of the float with the bit pattern `bits` in the order of floats.
fn float_place(bits: u64) -> (r: i128)
    ensures
        r == float_rank(bits),
{
    let negative = bits >= 0x8000_0000_0000_0000;
    let magnitude: u64 = if negative {
        bits - 0x8000_0000_0000_0000
    } else {
        bits
    };
    if magnitude > 0x7ff0_0000_0000_0000 {
        0x8000_0000_0000_0000
    } else if negative {
        -(magnitude as i128)
    } else {
        magnitude as i128
    }
}

/// Orders two pieces of text.
pub fn text_order(a: &str, b: &str) -> (r: Rel)
    ensures
        r == text_rel(a@, b@),
{
    let x = chars_of(a);
    let y = chars_of(b);
    let mut i: usize = 0;
    while i < x.len() && i < y.len()
        invariant
            x@ == a@,
            y@ == b@,
            i <= x.len(),
            i <= y.len(),
            text_rel(a@, b@) == text_rel_from(a@, b@, i as int),
        decreases x.len() - i,
    {
        let p = x[i];
        let q = y[i];
        if p != q {
            return char_order(p, q);
        }
        i += 1;
    }
    if i < x.len() {
        Rel::After
    } else if i < y.len() {
        Rel::Before
    } else {
        Rel::Same
    }
}

/// Orders two sequences of values.
fn seq_order(a: &Vec<Value>, b: &Vec<Value>) -> (r: Rel)
    ensures
        r == seq_rel_from(views(a@), views(b@), 0),
    decreases a, 0int,
{
    let ghost x = views(a@);
    let ghost y = views(b@);
    let mut i: usize = 0;
    while i < a.len() && i < b.len()
        invariant
            x == views(a@),
            y == views(b@),
            i <= a.len(),
            i <= b.len(),
            seq_rel_from(x, y, 0) == seq_rel_from(x, y, i as int),
        decreases a.len() - i,
    {
        let step = a[i].compare(&b[i]);
        match step {
            Rel::Same => {},
            _ => {
                return step;
            },
        }
        i += 1;
    }
    if i < a.len() {
        Rel::After
    } else if i < b.len() {
        Rel::Before
    } else {
        Rel::Same
    }
}

/// Orders two sequences of entries.
fn pairs_order(a: &Vec<(Value, Value)>, b: &Vec<(Value, Value)>) -> (r: Rel)
    ensures
        r == pairs_rel_from(pair_views(a@), pair_views(b@), 0),
    decreases a, 0int,
{
    let ghost x = pair_views(a@);
    let ghost y = pair_views(b@);
    let mut i: usize = 0;
    while i < a.len() && i < b.len()
        invariant
            x == pair_views(a@),
            y == pair_views(b@),
            i <= a.len(),
            i <= b.len(),
            pairs_rel_from(x, y, 0) == pairs_rel_from(x, y, i as int),
        decreases a.len() - i,
    {
        let by_key = a[i].0.compare(&b[i].0);
        match by_key {
            Rel::Same => {},
            _ => {
                return by_key;
            },
        }
        let by_value = a[i].1.compare(&b[i].1);
        match by_value {
            Rel::Same => {},
            _ => {
                return by_value;
            },
        }
        i += 1;
    }
    if i < a.len() {
        Rel::After
    } else if i < b.len() {
        Rel::Before
    } else {
        Rel::Same
    }
}

/// The place of a value's variant among the variants.
fn variant_place(v: &Value) -> (r: i128)
    ensures
        r == variant_rank(v@),
{
    match v {
        Value::Nil => 0,
        Value::Bool(_) => 1,
        Value::String(_) => 2,
        Value::Char(_) => 3,
        Value::Symbol(_) => 4,
        Value::Keyword(_) => 5,
        Value::Integer(_) => 6,
        Value::Float(_) => 7,
        Value::List(_) => 8,
        Value::Vector(_) => 9,
        Value::Mapping(_) => 10,
        Value::SetOf(_) => 11,
        Value::Tagged(_) => 12,
    }
}

impl Value {
    /// Says how this value stands to `other` in the order of values.
    pub fn compare(&self, other: &Value) -> (r: Rel)
        ensures
            r == rel(self@, other@),
        decreases self, 1int,
    {
        match (self, other) {
            (Value::Nil, Value::Nil) => Rel::Same,
            (Value::Bool(x), Value::Bool(y)) => int_order(
                if *x { 1 } else { 0 },
                if *y { 1 } else { 0 },
            ),
            (Value::String(x), Value::String(y)) => text_order(x.as_str(), y.as_str()),
            (Value::Char(x), Value::Char(y)) => char_order(*x, *y),
            (Value::Symbol(x), Value::Symbol(y)) => text_order(x.as_str(), y.as_str()),
            (Value::Keyword(x), Value::Keyword(y)) => text_order(x.as_str(), y.as_str()),
            (Value::Integer(x), Value::Integer(y)) => int_order(*x as i128, *y as i128),
            (Value::Float(x), Value::Float(y)) => int_order(float_place(*x), float_place(*y)),
            (Value::List(x), Value::List(y)) => seq_order(x, y),
            (Value::Vector(x), Value::Vector(y)) => seq_order(x, y),
            (Value::Mapping(x), Value::Mapping(y)) => pairs_order(x, y),
            (Value::SetOf(x), Value::SetOf(y)) => seq_order(x, y),
            (Value::Tagged(x), Value::Tagged(y)) => match (x, y) {
                (Tagged::Inst(p), Tagged::Inst(q)) => int_order(*p as i128, *q as i128),
                (Tagged::Inst(_), _) => Rel::Before,
                (Tagged::UUID(_), Tagged::Inst(_)) => Rel::After,
                (Tagged::UUID(p), Tagged::UUID(q)) => nat_order(*p, *q),
                (Tagged::UUID(_), Tagged::User(_, _)) => Rel::Before,
                (Tagged::User(s, p), Tagged::User(t, q)) => {
                    let by_tag = text_order(s.as_str(), t.as_str());
                    match by_tag {
                        Rel::Same => p.compare(q),
                        _ => by_tag,
                    }
                },
                (Tagged::User(_, _), _) => Rel::After,
            },
            _ => int_order(variant_place(self), variant_place(other)),
        }
    }
}

/// The relation seen from the other side.
pub open spec fn flip(r: Rel) -> Rel {
    match r {
        Rel::Before => Rel::After,
        Rel::Same => Rel::Same,
        Rel::After => Rel::Before,
    }
}

/// Text from index `i` on is `Same` exactly where the two texts have one
/// length and agree from `i` on.
pub proof fn lemma_text_same_from(a: Seq<char>, b: Seq<char>, i: int)
    requires
        0 <= i <= a.len(),
        i <= b.len(),
    ensures
        text_rel_from(a, b, i) == Rel::Same <==> (a.len() == b.len() && forall|k: int|
            i <= k < a.len() ==> a[k] == b[k]),
    decreases a.len() - i,
{
    if i < a.len() && i < b.len() {
        lemma_text_same_from(a, b, i + 1);
    }
}

/// Two texts are `Same` exactly where they are equal.
pub proof fn lemma_text_same(a: Seq<char>, b: Seq<char>)
    ensures
        text_rel(a, b) == Rel::Same <==> a == b,
{
    lemma_text_same_from(a, b, 0);
    if text_rel(a, b) == Rel::Same {
        assert(a =~= b);
    }
}

/// Seen from the other side, the order of text is flipped.
pub proof fn lemma_text_flip_from(a: Seq<char>, b: Seq<char>, i: int)
    requires
        0 <= i,
    ensures
        text_rel_from(b, a, i) == flip(text_rel_from(a, b, i)),
    decreases a.len() - i,
{
    if i < a.len() && i < b.len() {
        lemma_text_flip_from(a, b, i + 1);
    }
}

/// The order of text is transitive.
pub proof fn lemma_text_trans_from(a: Seq<char>, b: Seq<char>, c: Seq<char>, i: int)
    requires
        0 <= i,
        text_rel_from(a, b, i) == Rel::Before,
        text_rel_from(b, c, i) == Rel::Before,
    ensures
        text_rel_from(a, c, i) == Rel::Before,
    decreases a.len() - i,
{
    if i < a.len() && i < b.len() && i < c.len() {
        if a[i] == b[i] && b[i] == c[i] {
            lemma_text_trans_from(a, b, c, i + 1);
        }
    }
}

/// Values of different variants stand as their variants do, and values whose
/// variants have one place are of one variant.
pub proof fn lemma_rel_by_variant(a: ValueView, b: ValueView)
    ensures
        variant_rank(a) != variant_rank(b) ==> rel(a, b) == int_rel(
            variant_rank(a),
            variant_rank(b),
        ),
        0 <= variant_rank(a) <= 12,
{
}

/// Two values are `Same` exactly where they are equal.
pub proof fn lemma_rel_same(a: ValueView, b: ValueView)
    ensures
        rel(a, b) == Rel::Same <==> a == b,
    decreases a, 0int,
{
    lemma_rel_by_variant(a, b);
    match (a, b) {
        (ValueView::String(x), ValueView::String(y)) => lemma_text_same(x, y),
        (ValueView::Symbol(x), ValueView::Symbol(y)) => lemma_text_same(x, y),
        (ValueView::Keyword(x), ValueView::Keyword(y)) => lemma_text_same(x, y),
        (ValueView::List(x), ValueView::List(y)) => {
            lemma_seq_same_from(x, y, 0);
            if rel(a, b) == Rel::Same {
                assert(x =~= y);
            }
        },
        (ValueView::Vector(x), ValueView::Vector(y)) => {
            lemma_seq_same_from(x, y, 0);
            if rel(a, b) == Rel::Same {
                assert(x =~= y);
            }
        },
        (ValueView::SetOf(x), ValueView::SetOf(y)) => {
            lemma_seq_same_from(x, y, 0);
            if rel(a, b) == Rel::Same {
                assert(x =~= y);
            }
        },
        (ValueView::Mapping(x), ValueView::Mapping(y)) => {
            lemma_pairs_same_from(x, y, 0);
            if rel(a, b) == Rel::Same {
                assert(x =~= y);
            }
        },
        (ValueView::Tagged(x), ValueView::Tagged(y)) => match (x, y) {
            (TaggedView::User(s, p), TaggedView::User(t, q)) => {
                lemma_text_same(s, t);
                lemma_rel_same(*p, *q);
            },
            _ => {},
        },
        _ => {},
    }
}

/// Sequences from index `i` on are `Same` exactly where the two have one
/// length and agree from `i` on.
pub proof fn lemma_seq_same_from(a: Seq<ValueView>, b: Seq<ValueView>, i: int)
    requires
        0 <= i <= a.len(),
        i <= b.len(),
    ensures
        seq_rel_from(a, b, i) == Rel::Same <==> (a.len() == b.len() && forall|k: int|
            i <= k < a.len() ==> a[k] == b[k]),
    decreases a, a.len() - i,
{
    if i < a.len() && i < b.len() {
        lemma_rel_same(a[i], b[i]);
        lemma_seq_same_from(a, b, i + 1);
    }
}

/// Sequences of entries from index `i` on are `Same` exactly where the two
/// have one length and agree from `i` on.
pub proof fn lemma_pairs_same_from(
    a: Seq<(ValueView, ValueView)>,
    b: Seq<(ValueView, ValueView)>,
    i: int,
)
    requires
        0 <= i <= a.len(),
        i <= b.len(),
    ensures
        pairs_rel_from(a, b, i) == Rel::Same <==> (a.len() == b.len() && forall|k: int|
            i <= k < a.len() ==> a[k] == b[k]),
    decreases a, a.len() - i,
{
    if i < a.len() && i < b.len() {
        lemma_rel_same(a[i].0, b[i].0);
        lemma_rel_same(a[i].1, b[i].1);
        lemma_pairs_same_from(a, b, i + 1);
    }
}

/// Seen from the other side, the order of values is flipped.
pub proof fn lemma_rel_flip(a: ValueView, b: ValueView)
    ensures
        rel(b, a) == flip(rel(a, b)),
    decreases a, 0int,
{
    lemma_rel_by_variant(a, b);
    lemma_rel_by_variant(b, a);
    match (a, b) {
        (ValueView::String(x), ValueView::String(y)) => lemma_text_flip_from(x, y, 0),
        (ValueView::Symbol(x), ValueView::Symbol(y)) => lemma_text_flip_from(x, y, 0),
        (ValueView::Keyword(x), ValueView::Keyword(y)) => lemma_text_flip_from(x, y, 0),
        (ValueView::List(x), ValueView::List(y)) => lemma_seq_flip_from(x, y, 0),
        (ValueView::Vector(x), ValueView::Vector(y)) => lemma_seq_flip_from(x, y, 0),
        (ValueView::SetOf(x), ValueView::SetOf(y)) => lemma_seq_flip_from(x, y, 0),
        (ValueView::Mapping(x), ValueView::Mapping(y)) => lemma_pairs_flip_from(x, y, 0),
        (ValueView::Tagged(x), ValueView::Tagged(y)) => match (x, y) {
            (TaggedView::User(s, p), TaggedView::User(t, q)) => {
                lemma_text_flip_from(s, t, 0);
                lemma_rel_flip(*p, *q);
            },
            _ => {},
        },
        _ => {},
    }
}

/// Seen from the other side, the order of sequences is flipped.
pub proof fn lemma_seq_flip_from(a: Seq<ValueView>, b: Seq<ValueView>, i: int)
    requires
        0 <= i,
    ensures
        seq_rel_from(b, a, i) == flip(seq_rel_from(a, b, i)),
    decreases a, a.len() - i,
{
    if i < a.len() && i < b.len() {
        lemma_rel_flip(a[i], b[i]);
        lemma_seq_flip_from(a, b, i + 1);
    }
}

/// Seen from the other side, the order of sequences of entries is flipped.
pub proof fn lemma_pairs_flip_from(
    a: Seq<(ValueView, ValueView)>,
    b: Seq<(ValueView, ValueView)>,
    i: int,
)
    requires
        0 <= i,
    ensures
        pairs_rel_from(b, a, i) == flip(pairs_rel_from(a, b, i)),
    decreases a, a.len() - i,
{
    if i < a.len() && i < b.len() {
        lemma_rel_flip(a[i].0, b[i].0);
        lemma_rel_flip(a[i].1, b[i].1);
        lemma_pairs_flip_from(a, b, i + 1);
    }
}

/// The order of values is transitive.
pub proof fn lemma_rel_trans(a: ValueView, b: ValueView, c: ValueView)
    requires
        rel(a, b) == Rel::Before,
        rel(b, c) == Rel::Before,
    ensures
        rel(a, c) == Rel::Before,
    decreases a, 0int,
{
    lemma_rel_by_variant(a, b);
    lemma_rel_by_variant(b, c);
    lemma_rel_by_variant(a, c);
    if variant_rank(a) == variant_rank(b) && variant_rank(b) == variant_rank(c) {
        match (a, b, c) {
            (ValueView::String(x), ValueView::String(y), ValueView::String(z)) => {
                lemma_text_trans_from(x, y, z, 0)
            },
            (ValueView::Symbol(x), ValueView::Symbol(y), ValueView::Symbol(z)) => {
                lemma_text_trans_from(x, y, z, 0)
            },
            (ValueView::Keyword(x), ValueView::Keyword(y), ValueView::Keyword(z)) => {
                lemma_text_trans_from(x, y, z, 0)
            },
            (ValueView::List(x), ValueView::List(y), ValueView::List(z)) => {
                lemma_seq_trans_from(x, y, z, 0)
            },
            (ValueView::Vector(x), ValueView::Vector(y), ValueView::Vector(z)) => {
                lemma_seq_trans_from(x, y, z, 0)
            },
            (ValueView::SetOf(x), ValueView::SetOf(y), ValueView::SetOf(z)) => {
                lemma_seq_trans_from(x, y, z, 0)
            },
            (ValueView::Mapping(x), ValueView::Mapping(y), ValueView::Mapping(z)) => {
                lemma_pairs_trans_from(x, y, z, 0)
            },
            (ValueView::Tagged(x), ValueView::Tagged(y), ValueView::Tagged(z)) => match (x, y, z) {
                (TaggedView::User(s, p), TaggedView::User(t, q), TaggedView::User(u, r)) => {
                    lemma_text_same(s, t);
                    lemma_text_same(t, u);
                    lemma_text_same(s, u);
                    if text_rel(s, t) == Rel::Before && text_rel(t, u) == Rel::Before {
                        lemma_text_trans_from(s, t, u, 0);
                    } else if text_rel(s, t) == Rel::Same && text_rel(t, u) == Rel::Same {
                        lemma_rel_trans(*p, *q, *r);
                    }
                },
                _ => {},
            },
            _ => {},
        }
    }
}

/// One step of a lexicographic order is transitive where its parts are.
proof fn lemma_step_trans(a: ValueView, b: ValueView, c: ValueView)
    requires
        rel(a, b) != Rel::After,
        rel(b, c) != Rel::After,
    ensures
        rel(a, c) != Rel::After,
        rel(a, b) == Rel::Before || rel(b, c) == Rel::Before ==> rel(a, c) == Rel::Before,
    decreases a, 1int,
{
    lemma_rel_same(a, b);
    lemma_rel_same(b, c);
    lemma_rel_same(a, c);
    if rel(a, b) == Rel::Before && rel(b, c) == Rel::Before {
        lemma_rel_trans(a, b, c);
    }
}

/// The order of sequences is transitive.
pub proof fn lemma_seq_trans_from(
    a: Seq<ValueView>,
    b: Seq<ValueView>,
    c: Seq<ValueView>,
    i: int,
)
    requires
        0 <= i,
        seq_rel_from(a, b, i) == Rel::Before,
        seq_rel_from(b, c, i) == Rel::Before,
    ensures
        seq_rel_from(a, c, i) == Rel::Before,
    decreases a, a.len() - i,
{
    if i < a.len() && i < b.len() && i < c.len() {
        lemma_step_trans(a[i], b[i], c[i]);
        if rel(a[i], b[i]) == Rel::Same && rel(b[i], c[i]) == Rel::Same {
            lemma_seq_trans_from(a, b, c, i + 1);
        }
    }
}

/// The order of sequences of entries is transitive.
pub proof fn lemma_pairs_trans_from(
    a: Seq<(ValueView, ValueView)>,
    b: Seq<(ValueView, ValueView)>,
    c: Seq<(ValueView, ValueView)>,
    i: int,
)
    requires
        0 <= i,
        pairs_rel_from(a, b, i) == Rel::Before,
        pairs_rel_from(b, c, i) == Rel::Before,
    ensures
        pairs_rel_from(a, c, i) == Rel::Before,
    decreases a, a.len() - i,
{
    if i < a.len() && i < b.len() && i < c.len() {
        lemma_step_trans(a[i].0, b[i].0, c[i].0);
        if rel(a[i].0, b[i].0) == Rel::Same && rel(b[i].0, c[i].0) == Rel::Same {
            lemma_step_trans(a[i].1, b[i].1, c[i].1);
            if rel(a[i].1, b[i].1) == Rel::Same && rel(b[i].1, c[i].1) == Rel::Same {
                lemma_pairs_trans_from(a, b, c, i + 1);
            }
        }
    }
}

} // verus!

//! Sequences kept in ascending order: the members of a set and the entries
//! of a map.

use crate::order::{lemma_rel_flip, lemma_rel_same, lemma_rel_trans, rel, Rel};
use crate::value::{keys_of, pair_views, views, Tagged, TaggedView, Value, ValueView};
use vstd::prelude::*;

verus! {

/// The first index from `i` on whose item is not before `x`, or the length.
pub open spec fn seek(s: Seq<ValueView>, x: ValueView, i: int) -> int
    decreases s.len() - i,
{
    if 0 <= i < s.len() && rel(s[i], x) == Rel::Before {
        seek(s, x, i + 1)
    } else {
        i
    }
}

/// `s` with `x` among its members: put where the order wants it, unless it is
/// there already.
pub open spec fn with_member(s: Seq<ValueView>, x: ValueView) -> Seq<ValueView> {
    let at = seek(s, x, 0);
    if 0 <= at < s.len() && rel(s[at], x) == Rel::Same {
        s
    } else {
        s.insert(at, x)
    }
}

/// `s` with the entry of `k` and `v`: put where the order of keys wants it,
/// in place of the entry that `k` had before, if it had one.
pub open spec fn with_entry(s: Seq<(ValueView, ValueView)>, k: ValueView, v: ValueView) -> Seq<
    (ValueView, ValueView),
> {
    let at = seek(keys_of(s), k, 0);
    if 0 <= at < s.len() && rel(s[at].0, k) == Rel::Same {
        s.update(at, (k, v))
    } else {
        s.insert(at, (k, v))
    }
}

/// Every item of `s` is before all that follow it.
pub open spec fn ascending(s: Seq<ValueView>) -> bool {
    forall|i: int, j: int| 0 <= i < j < s.len() ==> rel(s[i], s[j]) == Rel::Before
}

/// A value is well formed where the members of every set in it, and the keys
/// of every map in it, are in ascending order.
pub open spec fn well_formed(v: ValueView) -> bool
    decreases v,
{
    match v {
        ValueView::List(items) => forall|i: int|
            0 <= i < items.len() ==> well_formed(#[trigger] items[i]),
        ValueView::Vector(items) => forall|i: int|
            0 <= i < items.len() ==> well_formed(#[trigger] items[i]),
        ValueView::SetOf(items) => ascending(items) && forall|i: int|
            0 <= i < items.len() ==> well_formed(#[trigger] items[i]),
        ValueView::Mapping(entries) => ascending(keys_of(entries)) && forall|i: int|
            0 <= i < entries.len() ==> well_formed((#[trigger] entries[i]).0) && well_formed(
                entries[i].1,
            ),
        ValueView::Tagged(TaggedView::User(_, inner)) => well_formed(*inner),
        _ => true,
    }
}

/// The parts of a well-formed value are well formed, and its sets and the
/// keys of its maps are ascending.
pub proof fn lemma_well_formed_parts(v: ValueView)
    requires
        well_formed(v),
    ensures
        match v {
            ValueView::List(items) => forall|i: int|
                0 <= i < items.len() ==> well_formed(#[trigger] items[i]),
            ValueView::Vector(items) => forall|i: int|
                0 <= i < items.len() ==> well_formed(#[trigger] items[i]),
            ValueView::SetOf(items) => ascending(items) && forall|i: int|
                0 <= i < items.len() ==> well_formed(#[trigger] items[i]),
            ValueView::Mapping(entries) => ascending(keys_of(entries)) && forall|i: int|
                0 <= i < entries.len() ==> well_formed((#[trigger] entries[i]).0) && well_formed(
                    entries[i].1,
                ),
            ValueView::Tagged(TaggedView::User(_, inner)) => well_formed(*inner),
            _ => true,
        },
{
    match v {
        ValueView::List(items) => {
            assert(v->List_0 == items);
        },
        ValueView::Vector(items) => {
            assert(v->Vector_0 == items);
        },
        _ => {},
    }
}

/// Where `seek` stops: everything it passed is before `x`, and what it
/// stopped at is not.
pub proof fn lemma_seek(s: Seq<ValueView>, x: ValueView, i: int)
    requires
        0 <= i <= s.len(),
    ensures
        i <= seek(s, x, i) <= s.len(),
        forall|j: int| i <= j < seek(s, x, i) ==> rel(#[trigger] s[j], x) == Rel::Before,
        seek(s, x, i) < s.len() ==> rel(s[seek(s, x, i)], x) != Rel::Before,
    decreases s.len() - i,
{
    if i < s.len() && rel(s[i], x) == Rel::Before {
        lemma_seek(s, x, i + 1);
    }
}

/// In an ascending sequence, everything from where `seek` stops on is after
/// `x`, but for an item that is the same as `x`, which then stands just
/// there.
pub proof fn lemma_seek_ascending(s: Seq<ValueView>, x: ValueView)
    requires
        ascending(s),
    ensures
        forall|j: int|
            seek(s, x, 0) < j < s.len() ==> rel(x, #[trigger] s[j]) == Rel::Before,
        seek(s, x, 0) < s.len() && rel(s[seek(s, x, 0)], x) != Rel::Same ==> rel(
            x,
            s[seek(s, x, 0)],
        ) == Rel::Before,
{
    lemma_seek(s, x, 0);
    let at = seek(s, x, 0);
    if at < s.len() {
        lemma_rel_flip(s[at], x);
        lemma_rel_same(s[at], x);
        assert forall|j: int| at < j < s.len() implies rel(x, #[trigger] s[j])
            == Rel::Before by {
            assert(rel(s[at], s[j]) == Rel::Before);
            if rel(s[at], x) == Rel::After {
                lemma_rel_trans(x, s[at], s[j]);
            }
        }
    }
}

/// A set stays ascending when a member is put into it.
pub proof fn lemma_with_member_ascending(s: Seq<ValueView>, x: ValueView)
    requires
        ascending(s),
    ensures
        ascending(with_member(s, x)),
{
    lemma_seek(s, x, 0);
    lemma_seek_ascending(s, x);
    let at = seek(s, x, 0);
    let t = with_member(s, x);
    if !(at < s.len() && rel(s[at], x) == Rel::Same) {
        assert forall|i: int, j: int| 0 <= i < j < t.len() implies rel(t[i], t[j])
            == Rel::Before by {
            if j < at {
                assert(t[i] == s[i] && t[j] == s[j]);
            } else if j == at {
                assert(t[i] == s[i]);
            } else if i < at {
                assert(t[i] == s[i] && t[j] == s[j - 1]);
            } else if i == at {
                assert(t[j] == s[j - 1]);
            } else {
                assert(t[i] == s[i - 1] && t[j] == s[j - 1]);
            }
        }
    }
}

/// The keys of a map stay ascending when an entry is put into it.
pub proof fn lemma_with_entry_ascending(
    s: Seq<(ValueView, ValueView)>,
    k: ValueView,
    v: ValueView,
)
    requires
        ascending(keys_of(s)),
    ensures
        ascending(keys_of(with_entry(s, k, v))),
        keys_of(with_entry(s, k, v)) == with_member(keys_of(s), k),
{
    let keys = keys_of(s);
    lemma_seek(keys, k, 0);
    let at = seek(keys, k, 0);
    if at < s.len() && rel(s[at].0, k) == Rel::Same {
        lemma_rel_same(s[at].0, k);
        assert(keys_of(with_entry(s, k, v)) =~= keys);
    } else {
        assert(keys_of(with_entry(s, k, v)) =~= keys.insert(at, k));
    }
    lemma_with_member_ascending(keys, k);
}

/// Puts `x` among the members of a set.
pub fn insert_member(items: &mut Vec<Value>, x: Value)
    ensures
        views(final(items)@) == with_member(views(old(items)@), x@),
{
    let ghost s = views(items@);
    let mut i: usize = 0;
    while i < items.len()
        invariant
            *items == *old(items),
            s == views(items@),
            i <= items.len(),
            seek(s, x@, 0) == seek(s, x@, i as int),
        decreases items.len() - i,
    {
        match items[i].compare(&x) {
            Rel::Before => {
                i += 1;
            },
            Rel::Same => {
                return ;
            },
            Rel::After => {
                items.insert(i, x);
                assert(views(items@) =~= s.insert(i as int, x@));
                return ;
            },
        }
    }
    items.insert(i, x);
    assert(views(items@) =~= s.insert(i as int, x@));
}

/// Puts the entry of `k` and `v` among the entries of a map.
pub fn insert_entry(entries: &mut Vec<(Value, Value)>, k: Value, v: Value)
    ensures
        pair_views(final(entries)@) == with_entry(pair_views(old(entries)@), k@, v@),
{
    let ghost s = pair_views(entries@);
    let ghost keys = keys_of(s);
    let mut i: usize = 0;
    while i < entries.len()
        invariant
            *entries == *old(entries),
            s == pair_views(entries@),
            keys == keys_of(s),
            i <= entries.len(),
            seek(keys, k@, 0) == seek(keys, k@, i as int),
        decreases entries.len() - i,
    {
        match entries[i].0.compare(&k) {
            Rel::Before => {
                i += 1;
            },
            Rel::Same => {
                let _ = entries.remove(i);
                entries.insert(i, (k, v));
                assert(pair_views(entries@) =~= s.update(i as int, (k@, v@)));
                return ;
            },
            Rel::After => {
                entries.insert(i, (k, v));
                assert(pair_views(entries@) =~= s.insert(i as int, (k@, v@)));
                return ;
            },
        }
    }
    entries.insert(i, (k, v));
    assert(pair_views(entries@) =~= s.insert(i as int, (k@, v@)));
}

/// The set that the first `n` of `items` make, put in one after the other.
pub open spec fn members_of(items: Seq<ValueView>, n: int) -> Seq<ValueView>
    decreases n,
{
    if n <= 0 || n > items.len() {
        Seq::empty()
    } else {
        with_member(members_of(items, n - 1), items[n - 1])
    }
}

/// The map that the first `n` of `pairs` make, put in one after the other: of
/// two pairs with one key the later one stays.
pub open spec fn entries_of(pairs: Seq<(ValueView, ValueView)>, n: int) -> Seq<
    (ValueView, ValueView),
>
    decreases n,
{
    if n <= 0 || n > pairs.len() {
        Seq::empty()
    } else {
        with_entry(entries_of(pairs, n - 1), pairs[n - 1].0, pairs[n - 1].1)
    }
}

/// The set that items make is ascending, and its members are well formed
/// where the items are.
pub proof fn lemma_members_of(items: Seq<ValueView>, n: int)
    requires
        0 <= n <= items.len(),
    ensures
        ascending(members_of(items, n)),
        (forall|j: int| 0 <= j < n ==> well_formed(#[trigger] items[j])) ==> (forall|i: int|
            0 <= i < members_of(items, n).len() ==> well_formed(
                #[trigger] members_of(items, n)[i],
            )),
    decreases n,
{
    if n > 0 {
        lemma_members_of(items, n - 1);
        let s = members_of(items, n - 1);
        let x = items[n - 1];
        lemma_with_member_ascending(s, x);
        lemma_seek(s, x, 0);
        let at = seek(s, x, 0);
        let t = with_member(s, x);
        if forall|j: int| 0 <= j < n ==> well_formed(#[trigger] items[j]) {
            assert forall|i: int| 0 <= i < t.len() implies well_formed(#[trigger] t[i]) by {
                if t == s || i < at {
                    assert(t[i] == s[i]);
                } else if i > at {
                    assert(t[i] == s[i - 1]);
                }
            }
        }
    }
}

/// The map that pairs make has ascending keys, and its keys and values are
/// well formed where those of the pairs are.
pub proof fn lemma_entries_of(pairs: Seq<(ValueView, ValueView)>, n: int)
    requires
        0 <= n <= pairs.len(),
    ensures
        ascending(keys_of(entries_of(pairs, n))),
        (forall|j: int|
            0 <= j < n ==> well_formed((#[trigger] pairs[j]).0) && well_formed(pairs[j].1)) ==> (
        forall|i: int|
            0 <= i < entries_of(pairs, n).len() ==> well_formed(
                (#[trigger] entries_of(pairs, n)[i]).0,
            ) && well_formed(entries_of(pairs, n)[i].1)),
    decreases n,
{
    if n > 0 {
        lemma_entries_of(pairs, n - 1);
        let s = entries_of(pairs, n - 1);
        let k = pairs[n - 1].0;
        let v = pairs[n - 1].1;
        lemma_with_entry_ascending(s, k, v);
        lemma_seek(keys_of(s), k, 0);
        let at = seek(keys_of(s), k, 0);
        let t = with_entry(s, k, v);
        if forall|j: int|
            0 <= j < n ==> well_formed((#[trigger] pairs[j]).0) && well_formed(pairs[j].1) {
            assert forall|i: int| 0 <= i < t.len() implies well_formed((#[trigger] t[i]).0)
                && well_formed(t[i].1) by {
                if i < at {
                    assert(t[i] == s[i]);
                } else if i > at {
                    if t.len() == s.len() {
                        assert(t[i] == s[i]);
                    } else {
                        assert(t[i] == s[i - 1]);
                    }
                }
            }
        }
    }
}

impl Value {
    /// The set of `items`.
    pub fn set_from(items: Vec<Value>) -> (r: Value)
        ensures
            r@ == ValueView::SetOf(members_of(views(items@), items@.len() as int)),
            (forall|j: int| 0 <= j < items@.len() ==> well_formed(#[trigger] views(items@)[j]))
                ==> well_formed(r@),
    {
        let ghost all = views(items@);
        let mut out: Vec<Value> = Vec::new();
        for x in it: items
            invariant
                all == views(it.seq()),
                views(out@) == members_of(all, it.index() as int),
        {
            assert(x@ == all[it.index() as int]);
            insert_member(&mut out, x);
        }
        proof {
            lemma_members_of(all, all.len() as int);
        }
        Value::SetOf(out)
    }

    /// The map of `pairs`, each a key with its value. Of two pairs with one
    /// key the later one stays.
    pub fn map_from(pairs: Vec<(Value, Value)>) -> (r: Value)
        ensures
            r@ == ValueView::Mapping(entries_of(pair_views(pairs@), pairs@.len() as int)),
            (forall|j: int|
                0 <= j < pairs@.len() ==> well_formed((#[trigger] pair_views(pairs@)[j]).0)
                    && well_formed(pair_views(pairs@)[j].1)) ==> well_formed(r@),
    {
        let ghost all = pair_views(pairs@);
        let mut out: Vec<(Value, Value)> = Vec::new();
        for pair in it: pairs
            invariant
                all == pair_views(it.seq()),
                pair_views(out@) == entries_of(all, it.index() as int),
        {
            assert((pair.0@, pair.1@) == all[it.index() as int]);
            let (k, v) = pair;
            insert_entry(&mut out, k, v);
        }
        proof {
            lemma_entries_of(all, all.len() as int);
        }
        Value::Mapping(out)
    }

    /// The list of `items`.
    pub fn list(items: Vec<Value>) -> (r: Value)
        ensures
            r == Value::List(items),
    {
        Value::List(items)
    }

    /// The vector of `items`.
    pub fn vector(items: Vec<Value>) -> (r: Value)
        ensures
            r == Value::Vector(items),
    {
        Value::Vector(items)
    }
}

/// Every item of the first `n` of `s` is before all of them that follow it.
pub open spec fn ascending_up_to(s: Seq<ValueView>, n: int) -> bool {
    forall|i: int, j: int| 0 <= i < j < n ==> rel(s[i], s[j]) == Rel::Before
}

/// Says whether `items` are in ascending order.
fn is_ascending(items: &Vec<Value>) -> (r: bool)
    ensures
        r == ascending(views(items@)),
{
    let ghost s = views(items@);
    if items.len() < 2 {
        return true;
    }
    let mut i: usize = 1;
    while i < items.len()
        invariant
            1 <= i <= items.len(),
            s == views(items@),
            ascending_up_to(s, i as int),
        decreases items.len() - i,
    {
        match items[i - 1].compare(&items[i]) {
            Rel::Before => {
                assert forall|p: int, q: int| 0 <= p < q < i + 1 implies rel(s[p], s[q])
                    == Rel::Before by {
                    if q == i && p < i - 1 {
                        lemma_rel_trans(s[p], s[i - 1], s[i as int]);
                    }
                }
            },
            _ => {
                assert(rel(s[i - 1], s[i as int]) != Rel::Before);
                return false;
            },
        }
        i += 1;
    }
    true
}

/// Says whether the keys of `entries` are in ascending order.
fn has_ascending_keys(entries: &Vec<(Value, Value)>) -> (r: bool)
    ensures
        r == ascending(keys_of(pair_views(entries@))),
{
    let ghost s = keys_of(pair_views(entries@));
    if entries.len() < 2 {
        return true;
    }
    let mut i: usize = 1;
    while i < entries.len()
        invariant
            1 <= i <= entries.len(),
            s == keys_of(pair_views(entries@)),
            ascending_up_to(s, i as int),
        decreases entries.len() - i,
    {
        assert(s[i - 1] == pair_views(entries@)[i - 1].0);
        assert(s[i as int] == pair_views(entries@)[i as int].0);
        match entries[i - 1].0.compare(&entries[i].0) {
            Rel::Before => {
                assert forall|p: int, q: int| 0 <= p < q < i + 1 implies rel(s[p], s[q])
                    == Rel::Before by {
                    if q == i && p < i - 1 {
                        lemma_rel_trans(s[p], s[i - 1], s[i as int]);
                    }
                }
            },
            _ => {
                assert(rel(s[i - 1], s[i as int]) != Rel::Before);
                return false;
            },
        }
        i += 1;
    }
    true
}

/// Says whether every one of `items` is well formed.
fn all_well_formed(items: &Vec<Value>) -> (r: bool)
    ensures
        r == (forall|i: int|
            0 <= i < views(items@).len() ==> well_formed(#[trigger] views(items@)[i])),
    decreases items, 0int,
{
    assert(views(items@).len() == items@.len());
    let mut i: usize = 0;
    while i < items.len()
        invariant
            i <= items.len(),
            forall|k: int| 0 <= k < i ==> well_formed(#[trigger] views(items@)[k]),
        decreases items.len() - i,
    {
        if !items[i].is_well_formed() {
            assert(!well_formed(views(items@)[i as int]));
            return false;
        }
        i += 1;
    }
    true
}

/// Says whether every key and every value of `entries` is well formed.
fn all_entries_well_formed(entries: &Vec<(Value, Value)>) -> (r: bool)
    ensures
        r == (forall|i: int|
            0 <= i < pair_views(entries@).len() ==> well_formed(
                (#[trigger] pair_views(entries@)[i]).0,
            ) && well_formed(pair_views(entries@)[i].1)),
    decreases entries, 0int,
{
    assert(pair_views(entries@).len() == entries@.len());
    let mut i: usize = 0;
    while i < entries.len()
        invariant
            i <= entries.len(),
            forall|k: int|
                0 <= k < i ==> well_formed((#[trigger] pair_views(entries@)[k]).0) && well_formed(
                    pair_views(entries@)[k].1,
                ),
        decreases entries.len() - i,
    {
        if !entries[i].0.is_well_formed() || !entries[i].1.is_well_formed() {
            assert(!(well_formed(pair_views(entries@)[i as int].0) && well_formed(
                pair_views(entries@)[i as int].1,
            )));
            return false;
        }
        i += 1;
    }
    true
}

impl Value {
    /// Says whether this value is well formed: whether the members of every
    /// set in it, and the keys of every map in it, are in ascending order.
    pub fn is_well_formed(&self) -> (r: bool)
        ensures
            r == well_formed(self@),
        decreases self, 1int,
    {
        match self {
            Value::List(items) => {
                assert(self@->List_0 == views(items@));
                all_well_formed(items)
            },
            Value::Vector(items) => {
                assert(self@->Vector_0 == views(items@));
                all_well_formed(items)
            },
            Value::SetOf(items) => is_ascending(items) && all_well_formed(items),
            Value::Mapping(entries) => has_ascending_keys(entries) && all_entries_well_formed(
                entries,
            ),
            Value::Tagged(Tagged::User(_, inner)) => inner.is_well_formed(),
            _ => true,
        }
    }
}

} // verus!

//! Sets and maps have one form: an ascending sequence is fixed by what it
//! holds, so the order in which members and entries are put in leaves no
//! trace.

use crate::order::{lemma_rel_flip, lemma_rel_same, lemma_rel_trans, rel, Rel};
use crate::sorted::{
    ascending, entries_of, lemma_entries_of, lemma_members_of, lemma_seek, lemma_seek_ascending,
    members_of, seek, with_entry, with_member,
};
use crate::value::{keys_of, ValueView};
use vstd::prelude::*;

verus! {

/// No value stands twice in an ascending sequence.
pub proof fn lemma_ascending_distinct(s: Seq<ValueView>, i: int, j: int)
    requires
        ascending(s),
        0 <= i < s.len(),
        0 <= j < s.len(),
        i != j,
    ensures
        s[i] != s[j],
{
    lemma_rel_same(s[i], s[j]);
    if i < j {
        assert(rel(s[i], s[j]) == Rel::Before);
    } else {
        assert(rel(s[j], s[i]) == Rel::Before);
        lemma_rel_flip(s[j], s[i]);
    }
}

/// Two ascending sequences that hold the same values are one sequence.
pub proof fn lemma_ascending_unique(a: Seq<ValueView>, b: Seq<ValueView>)
    requires
        ascending(a),
        ascending(b),
        forall|i: int| 0 <= i < a.len() ==> b.contains(#[trigger] a[i]),
        forall|i: int| 0 <= i < b.len() ==> a.contains(#[trigger] b[i]),
    ensures
        a == b,
    decreases a.len(),
{
    if a.len() == 0 {
        if b.len() > 0 {
            assert(a.contains(b[0]));
        }
        assert(a =~= b);
    } else {
        assert(b.contains(a[0]));
        let j = choose|j: int| 0 <= j < b.len() && b[j] == a[0];
        assert(a.contains(b[0]));
        let i = choose|i: int| 0 <= i < a.len() && a[i] == b[0];
        if i > 0 && j > 0 {
            assert(rel(a[0], a[i]) == Rel::Before);
            assert(rel(b[0], b[j]) == Rel::Before);
            lemma_rel_trans(a[0], b[0], a[0]);
            lemma_rel_same(a[0], a[0]);
        }
        assert(a[0] == b[0]);
        let at = a.drop_first();
        let bt = b.drop_first();
        assert forall|k: int| 0 <= k < at.len() implies bt.contains(#[trigger] at[k]) by {
            assert(at[k] == a[k + 1]);
            assert(b.contains(a[k + 1]));
            let m = choose|m: int| 0 <= m < b.len() && b[m] == a[k + 1];
            lemma_ascending_distinct(a, 0, k + 1);
            assert(m > 0);
            assert(bt[m - 1] == at[k]);
        }
        assert forall|k: int| 0 <= k < bt.len() implies at.contains(#[trigger] bt[k]) by {
            assert(bt[k] == b[k + 1]);
            assert(a.contains(b[k + 1]));
            let m = choose|m: int| 0 <= m < a.len() && a[m] == b[k + 1];
            lemma_ascending_distinct(b, 0, k + 1);
            assert(m > 0);
            assert(at[m - 1] == bt[k]);
        }
        assert(ascending(at)) by {
            assert forall|p: int, q: int| 0 <= p < q < at.len() implies rel(at[p], at[q])
                == Rel::Before by {
                assert(at[p] == a[p + 1] && at[q] == a[q + 1]);
            }
        }
        assert(ascending(bt)) by {
            assert forall|p: int, q: int| 0 <= p < q < bt.len() implies rel(bt[p], bt[q])
                == Rel::Before by {
                assert(bt[p] == b[p + 1] && bt[q] == b[q + 1]);
            }
        }
        lemma_ascending_unique(at, bt);
        assert(a =~= seq![a[0]] + at);
        assert(b =~= seq![b[0]] + bt);
    }
}

/// A set with `x` put in holds `x` and what it held before, and nothing
/// else.
pub proof fn lemma_with_member_holds(s: Seq<ValueView>, x: ValueView, v: ValueView)
    ensures
        with_member(s, x).contains(v) <==> (v == x || s.contains(v)),
{
    lemma_seek(s, x, 0);
    let at = seek(s, x, 0);
    let t = with_member(s, x);
    if at < s.len() && rel(s[at], x) == Rel::Same {
        lemma_rel_same(s[at], x);
        assert(s[at] == x);
    } else {
        assert(t[at] == x);
        if s.contains(v) {
            let i = choose|i: int| 0 <= i < s.len() && s[i] == v;
            if i < at {
                assert(t[i] == v);
            } else {
                assert(t[i + 1] == v);
            }
        }
        if t.contains(v) {
            let i = choose|i: int| 0 <= i < t.len() && t[i] == v;
            if i < at {
                assert(s[i] == v);
            } else if i > at {
                assert(s[i - 1] == v);
            }
        }
    }
}

/// The set that items make holds just the items.
pub proof fn lemma_members_of_holds(items: Seq<ValueView>, n: int, v: ValueView)
    requires
        0 <= n <= items.len(),
    ensures
        members_of(items, n).contains(v) <==> exists|j: int| 0 <= j < n && items[j] == v,
    decreases n,
{
    if n > 0 {
        lemma_members_of_holds(items, n - 1, v);
        lemma_with_member_holds(members_of(items, n - 1), items[n - 1], v);
        if members_of(items, n).contains(v) {
            if v == items[n - 1] {
                assert(items[n - 1] == v);
            } else {
                let j = choose|j: int| 0 <= j < n - 1 && items[j] == v;
                assert(items[j] == v);
            }
        }
    }
}

/// The set that items make does not depend on their order, nor on how often
/// an item is given: two sequences that hold the same items make one set.
pub proof fn lemma_set_order_free(a: Seq<ValueView>, b: Seq<ValueView>)
    requires
        forall|i: int| 0 <= i < a.len() ==> b.contains(#[trigger] a[i]),
        forall|i: int| 0 <= i < b.len() ==> a.contains(#[trigger] b[i]),
    ensures
        members_of(a, a.len() as int) == members_of(b, b.len() as int),
{
    let x = members_of(a, a.len() as int);
    let y = members_of(b, b.len() as int);
    lemma_members_of(a, a.len() as int);
    lemma_members_of(b, b.len() as int);
    assert forall|i: int| 0 <= i < x.len() implies y.contains(#[trigger] x[i]) by {
        assert(x.contains(x[i]));
        lemma_members_of_holds(a, a.len() as int, x[i]);
        let j = choose|j: int| 0 <= j < a.len() && a[j] == x[i];
        assert(b.contains(a[j]));
        let k = choose|k: int| 0 <= k < b.len() && b[k] == a[j];
        lemma_members_of_holds(b, b.len() as int, x[i]);
    }
    assert forall|i: int| 0 <= i < y.len() implies x.contains(#[trigger] y[i]) by {
        assert(y.contains(y[i]));
        lemma_members_of_holds(b, b.len() as int, y[i]);
        let j = choose|j: int| 0 <= j < b.len() && b[j] == y[i];
        assert(a.contains(b[j]));
        let k = choose|k: int| 0 <= k < a.len() && a[k] == b[j];
        lemma_members_of_holds(a, a.len() as int, y[i]);
    }
    lemma_ascending_unique(x, y);
}

/// A map with the entry of `k` and `v` put in holds that entry and the
/// entries that it held before under other keys, and nothing else.
pub proof fn lemma_with_entry_holds(
    s: Seq<(ValueView, ValueView)>,
    k: ValueView,
    v: ValueView,
    p: (ValueView, ValueView),
)
    requires
        ascending(keys_of(s)),
    ensures
        with_entry(s, k, v).contains(p) <==> (p == (k, v) || (s.contains(p) && p.0 != k)),
{
    let keys = keys_of(s);
    lemma_seek(keys, k, 0);
    lemma_seek_ascending(keys, k);
    let at = seek(keys, k, 0);
    let t = with_entry(s, k, v);
    if at < s.len() && rel(s[at].0, k) == Rel::Same {
        lemma_rel_same(s[at].0, k);
        assert(t[at] == (k, v));
        if s.contains(p) && p.0 != k {
            let i = choose|i: int| 0 <= i < s.len() && s[i] == p;
            assert(t[i] == p);
        }
        if t.contains(p) {
            let i = choose|i: int| 0 <= i < t.len() && t[i] == p;
            if i != at {
                assert(s[i] == p);
                assert(keys[i] == p.0 && keys[at] == k);
                lemma_ascending_distinct(keys, i, at);
            }
        }
    } else {
        assert(t[at] == (k, v));
        assert forall|i: int| 0 <= i < s.len() implies (#[trigger] s[i]).0 != k by {
            assert(keys[i] == s[i].0);
            lemma_rel_same(keys[i], k);
            lemma_rel_flip(k, keys[i]);
            if i < at {
                assert(rel(keys[i], k) == Rel::Before);
            } else {
                assert(rel(k, keys[i]) == Rel::Before);
            }
        }
        if s.contains(p) {
            let i = choose|i: int| 0 <= i < s.len() && s[i] == p;
            if i < at {
                assert(t[i] == p);
            } else {
                assert(t[i + 1] == p);
            }
        }
        if t.contains(p) {
            let i = choose|i: int| 0 <= i < t.len() && t[i] == p;
            if i < at {
                assert(s[i] == p);
            } else if i > at {
                assert(s[i - 1] == p);
            }
        }
    }
}

/// No key stands twice among the first `n` of `pairs`.
pub open spec fn distinct_keys(pairs: Seq<(ValueView, ValueView)>, n: int) -> bool {
    forall|i: int, j: int| 0 <= i < j < n && j < pairs.len() ==> pairs[i].0 != pairs[j].0
}

/// The map that pairs with distinct keys make holds just the pairs.
pub proof fn lemma_entries_of_holds(
    pairs: Seq<(ValueView, ValueView)>,
    n: int,
    p: (ValueView, ValueView),
)
    requires
        0 <= n <= pairs.len(),
        distinct_keys(pairs, n),
    ensures
        entries_of(pairs, n).contains(p) <==> exists|j: int| 0 <= j < n && pairs[j] == p,
    decreases n,
{
    if n > 0 {
        lemma_entries_of_holds(pairs, n - 1, p);
        lemma_entries_of(pairs, n - 1);
        lemma_with_entry_holds(entries_of(pairs, n - 1), pairs[n - 1].0, pairs[n - 1].1, p);
        if entries_of(pairs, n).contains(p) {
            if p == pairs[n - 1] {
                assert(pairs[n - 1] == p);
            } else {
                let j = choose|j: int| 0 <= j < n - 1 && pairs[j] == p;
                assert(pairs[j] == p);
            }
        }
        if exists|j: int| 0 <= j < n && pairs[j] == p {
            let j = choose|j: int| 0 <= j < n && pairs[j] == p;
            if j < n - 1 {
                assert(pairs[j].0 != pairs[n - 1].0);
            }
        }
    }
}

/// Two sequences of entries with ascending keys that hold the same entries
/// are one sequence.
pub proof fn lemma_entries_unique(a: Seq<(ValueView, ValueView)>, b: Seq<(ValueView, ValueView)>)
    requires
        ascending(keys_of(a)),
        ascending(keys_of(b)),
        forall|i: int| 0 <= i < a.len() ==> b.contains(#[trigger] a[i]),
        forall|i: int| 0 <= i < b.len() ==> a.contains(#[trigger] b[i]),
    ensures
        a == b,
{
    let x = keys_of(a);
    let y = keys_of(b);
    assert forall|i: int| 0 <= i < x.len() implies y.contains(#[trigger] x[i]) by {
        assert(b.contains(a[i]));
        let m = choose|m: int| 0 <= m < b.len() && b[m] == a[i];
        assert(y[m] == x[i]);
    }
    assert forall|i: int| 0 <= i < y.len() implies x.contains(#[trigger] y[i]) by {
        assert(a.contains(b[i]));
        let m = choose|m: int| 0 <= m < a.len() && a[m] == b[i];
        assert(x[m] == y[i]);
    }
    lemma_ascending_unique(x, y);
    assert(a.len() == b.len());
    assert forall|i: int| 0 <= i < a.len() implies a[i] == b[i] by {
        assert(b.contains(a[i]));
        let m = choose|m: int| 0 <= m < b.len() && b[m] == a[i];
        assert(y[m] == x[i] && x[i] == y[i]);
        if m != i {
            lemma_ascending_distinct(y, m, i);
        }
    }
    assert(a =~= b);
}

/// The map that pairs make does not depend on their order: two sequences of
/// pairs that hold the same pairs, each with no key twice, make one map.
pub proof fn lemma_map_order_free(a: Seq<(ValueView, ValueView)>, b: Seq<(ValueView, ValueView)>)
    requires
        distinct_keys(a, a.len() as int),
        distinct_keys(b, b.len() as int),
        forall|i: int| 0 <= i < a.len() ==> b.contains(#[trigger] a[i]),
        forall|i: int| 0 <= i < b.len() ==> a.contains(#[trigger] b[i]),
    ensures
        entries_of(a, a.len() as int) == entries_of(b, b.len() as int),
{
    let x = entries_of(a, a.len() as int);
    let y = entries_of(b, b.len() as int);
    lemma_entries_of(a, a.len() as int);
    lemma_entries_of(b, b.len() as int);
    assert forall|i: int| 0 <= i < x.len() implies y.contains(#[trigger] x[i]) by {
        assert(x.contains(x[i]));
        lemma_entries_of_holds(a, a.len() as int, x[i]);
        let j = choose|j: int| 0 <= j < a.len() && a[j] == x[i];
        assert(b.contains(a[j]));
        let k = choose|k: int| 0 <= k < b.len() && b[k] == a[j];
        lemma_entries_of_holds(b, b.len() as int, x[i]);
    }
    assert forall|i: int| 0 <= i < y.len() implies x.contains(#[trigger] y[i]) by {
        assert(y.contains(y[i]));
        lemma_entries_of_holds(b, b.len() as int, y[i]);
        let j = choose|j: int| 0 <= j < b.len() && b[j] == y[i];
        assert(a.contains(b[j]));
        let k = choose|k: int| 0 <= k < a.len() && a[k] == b[j];
        lemma_entries_of_holds(a, a.len() as int, y[i]);
    }
    lemma_entries_unique(x, y);
}

} // verus!

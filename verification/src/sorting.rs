//! Stable sorting: what it means, and an insertion sort that does it. The rows
//! that are sorted here usually come almost in order, which suits insertion.

use vstd::prelude::*;

verus! {

/// `x` put in front of the first element of `s` that it may precede.
pub open spec fn inserted<A>(x: A, s: Seq<A>, le: spec_fn(A, A) -> bool) -> Seq<A>
    decreases s.len(),
{
    if s.len() == 0 || le(x, s[0]) {
        seq![x] + s
    } else {
        seq![s[0]] + inserted(x, s.drop_first(), le)
    }
}

/// `s` in the order `le`, elements of equal rank in the order they had.
pub open spec fn stable_sorted<A>(s: Seq<A>, le: spec_fn(A, A) -> bool) -> Seq<A>
    decreases s.len(),
{
    if s.len() == 0 {
        s
    } else {
        inserted(s[0], stable_sorted(s.drop_first(), le), le)
    }
}

/// `le` compares any two elements and is transitive.
pub open spec fn total_preorder<A>(le: spec_fn(A, A) -> bool) -> bool {
    &&& forall|x: A, y: A| #[trigger] le(x, y) || le(y, x)
    &&& forall|x: A, y: A, z: A| #[trigger] le(x, y) && #[trigger] le(y, z) ==> le(x, z)
}

pub open spec fn in_order<A>(s: Seq<A>, le: spec_fn(A, A) -> bool) -> bool {
    forall|i: int, j: int| 0 <= i < j < s.len() ==> #[trigger] le(s[i], s[j])
}

/// Neither of the two comes before the other.
pub open spec fn same_rank<A>(x: A, y: A, le: spec_fn(A, A) -> bool) -> bool {
    le(x, y) && le(y, x)
}

/// The elements that neither come before `x` nor after it.
pub open spec fn rank_of<A>(x: A, le: spec_fn(A, A) -> bool) -> spec_fn(A) -> bool {
    |y: A| same_rank(x, y, le)
}

pub proof fn lemma_filter_first<A>(s: Seq<A>, p: spec_fn(A) -> bool)
    requires
        s.len() > 0,
    ensures
        s.filter(p) == if p(s[0]) {
            seq![s[0]] + s.drop_first().filter(p)
        } else {
            s.drop_first().filter(p)
        },
    decreases s.len(),
{
    reveal(Seq::filter);
    if s.len() == 1 {
        assert(s.drop_last() == Seq::<A>::empty());
        assert(s.drop_first() == Seq::<A>::empty());
        assert(s.drop_last().filter(p) == Seq::<A>::empty());
        assert(s.drop_first().filter(p) == Seq::<A>::empty());
    } else {
        lemma_filter_first(s.drop_last(), p);
        assert(s.drop_last().drop_first() == s.drop_first().drop_last());
        assert(s.drop_first().last() == s.last());
        assert(s.drop_last()[0] == s[0]);
    }
}

proof fn lemma_multiset_first<A>(x: A, s: Seq<A>)
    ensures
        (seq![x] + s).to_multiset() == s.to_multiset().insert(x),
{
    broadcast use vstd::seq_lib::group_to_multiset_ensures;

    vstd::seq_lib::lemma_multiset_commutative(seq![x], s);
    assert(seq![x] == Seq::<A>::empty().push(x));
    assert(Seq::<A>::empty().to_multiset() == vstd::multiset::Multiset::<A>::empty());
    assert((seq![x] + s).to_multiset() == s.to_multiset().insert(x));
}

proof fn lemma_inserted<A>(x: A, s: Seq<A>, le: spec_fn(A, A) -> bool)
    ensures
        inserted(x, s, le).len() == s.len() + 1,
        inserted(x, s, le).to_multiset() == s.to_multiset().insert(x),
        forall|p: spec_fn(A) -> bool|
            #![trigger inserted(x, s, le).filter(p)]
            (forall|i: int| 0 <= i < s.len() && !le(x, s[i]) ==> !(p(x) && p(s[i])))
                ==> inserted(x, s, le).filter(p) == (seq![x] + s).filter(p),
    decreases s.len(),
{
    lemma_multiset_first(x, s);
    if s.len() > 0 && !le(x, s[0]) {
        let rest = s.drop_first();
        let tail = inserted(x, rest, le);
        lemma_inserted(x, rest, le);
        lemma_multiset_first(s[0], tail);
        lemma_multiset_first(s[0], rest);
        assert(seq![s[0]] + rest == s);
        assert(rest.to_multiset().insert(x).insert(s[0]) == rest.to_multiset().insert(
            s[0],
        ).insert(x));
        assert forall|p: spec_fn(A) -> bool|
            #![trigger inserted(x, s, le).filter(p)]
            (forall|i: int| 0 <= i < s.len() && !le(x, s[i]) ==> !(p(x) && p(
                s[i],
            ))) implies inserted(x, s, le).filter(p) == (seq![x] + s).filter(p) by {
            assert forall|i: int| 0 <= i < rest.len() && !le(x, rest[i]) implies !(p(x) && p(
                rest[i],
            )) by {
                assert(rest[i] == s[i + 1]);
            }
            assert(tail.filter(p) == (seq![x] + rest).filter(p));
            let whole = seq![s[0]] + tail;
            lemma_filter_first(whole, p);
            assert(whole.drop_first() == tail);
            lemma_filter_first(seq![x] + s, p);
            assert((seq![x] + s).drop_first() == s);
            lemma_filter_first(s, p);
            lemma_filter_first(seq![x] + rest, p);
            assert((seq![x] + rest).drop_first() == rest);
            assert(!(p(x) && p(s[0])));
            assert(whole.filter(p) == (seq![x] + s).filter(p));
        }
    }
}

proof fn lemma_inserted_in_order<A>(x: A, s: Seq<A>, le: spec_fn(A, A) -> bool)
    requires
        total_preorder(le),
        in_order(s, le),
    ensures
        in_order(inserted(x, s, le), le),
    decreases s.len(),
{
    let res = inserted(x, s, le);
    if s.len() == 0 || le(x, s[0]) {
        assert forall|i: int, j: int| 0 <= i < j < res.len() implies #[trigger] le(
            res[i],
            res[j],
        ) by {
            if i > 0 {
                assert(le(s[i - 1], s[j - 1]));
            } else if j > 1 {
                assert(le(s[0], s[j - 1]));
            }
        }
    } else {
        let rest = s.drop_first();
        assert forall|i: int, j: int| 0 <= i < j < rest.len() implies #[trigger] le(
            rest[i],
            rest[j],
        ) by {
            assert(le(s[i + 1], s[j + 1]));
        }
        lemma_inserted_in_order(x, rest, le);
        lemma_inserted_members(x, rest, le);
        let tail = inserted(x, rest, le);
        assert(le(s[0], x));
        assert forall|i: int, j: int| 0 <= i < j < res.len() implies #[trigger] le(
            res[i],
            res[j],
        ) by {
            assert(res[j] == tail[j - 1]);
            if i > 0 {
                assert(le(tail[i - 1], tail[j - 1]));
            } else {
                assert(tail[j - 1] == x || rest.contains(tail[j - 1]));
                if tail[j - 1] != x {
                    let k = choose|k: int| 0 <= k < rest.len() && rest[k] == tail[j - 1];
                    assert(le(s[0], s[k + 1]));
                }
            }
        }
    }
}

proof fn lemma_inserted_members<A>(x: A, s: Seq<A>, le: spec_fn(A, A) -> bool)
    ensures
        forall|i: int|
            0 <= i < inserted(x, s, le).len() ==> #[trigger] inserted(x, s, le)[i] == x
                || s.contains(inserted(x, s, le)[i]),
    decreases s.len(),
{
    let res = inserted(x, s, le);
    if s.len() == 0 || le(x, s[0]) {
        assert forall|i: int| 0 <= i < res.len() implies #[trigger] res[i] == x || s.contains(
            res[i],
        ) by {
            if i > 0 {
                assert(res[i] == s[i - 1]);
            }
        }
    } else {
        let rest = s.drop_first();
        lemma_inserted_members(x, rest, le);
        assert forall|i: int| 0 <= i < res.len() implies #[trigger] res[i] == x || s.contains(
            res[i],
        ) by {
            if i == 0 {
                assert(res[i] == s[0]);
            } else {
                assert(res[i] == inserted(x, rest, le)[i - 1]);
                if res[i] != x {
                    let k = choose|k: int| 0 <= k < rest.len() && rest[k] == res[i];
                    assert(s[k + 1] == res[i]);
                }
            }
        }
    }
}

/// What stable sorting gives: the same elements, in order, and elements of
/// equal rank as they stood.
pub proof fn law_stable_sorted<A>(s: Seq<A>, le: spec_fn(A, A) -> bool)
    requires
        total_preorder(le),
    ensures
        stable_sorted(s, le).len() == s.len(),
        stable_sorted(s, le).to_multiset() == s.to_multiset(),
        in_order(stable_sorted(s, le), le),
        forall|x: A|
            #[trigger] stable_sorted(s, le).filter(rank_of(x, le)) == s.filter(rank_of(x, le)),
    decreases s.len(),
{
    if s.len() > 0 {
        let rest = s.drop_first();
        let sorted = stable_sorted(rest, le);
        law_stable_sorted(rest, le);
        lemma_inserted(s[0], sorted, le);
        lemma_inserted_in_order(s[0], sorted, le);
        assert(seq![s[0]] + rest == s);
        lemma_multiset_first(s[0], rest);
        assert forall|x: A|
            #[trigger] stable_sorted(s, le).filter(rank_of(x, le)) == s.filter(
                rank_of(x, le),
            ) by {
            let p = rank_of(x, le);
            assert(sorted.filter(p) == rest.filter(p));
            lemma_filter_first(s, p);
            lemma_filter_first(seq![s[0]] + sorted, p);
            assert((seq![s[0]] + sorted).drop_first() == sorted);
            assert forall|i: int| 0 <= i < sorted.len() && !le(s[0], sorted[i]) implies !(p(s[0])
                && p(sorted[i])) by {
                if p(s[0]) && p(sorted[i]) {
                    assert(le(s[0], x) && le(x, sorted[i]));
                }
            }
            assert(stable_sorted(s, le).filter(p) == s.filter(p));
        }
    }
}

/// Every element of the sorted sequence satisfies what every element satisfied
/// before.
pub proof fn lemma_sorted_all<A>(s: Seq<A>, le: spec_fn(A, A) -> bool, p: spec_fn(A) -> bool)
    requires
        forall|i: int| 0 <= i < s.len() ==> p(#[trigger] s[i]),
    ensures
        stable_sorted(s, le).len() == s.len(),
        forall|i: int| 0 <= i < s.len() ==> p(#[trigger] stable_sorted(s, le)[i]),
    decreases s.len(),
{
    if s.len() > 0 {
        let rest = s.drop_first();
        assert forall|i: int| 0 <= i < rest.len() implies p(#[trigger] rest[i]) by {
            assert(rest[i] == s[i + 1]);
        }
        lemma_sorted_all(rest, le, p);
        let sorted = stable_sorted(rest, le);
        lemma_inserted(s[0], sorted, le);
        lemma_inserted_members(s[0], sorted, le);
        assert forall|i: int| 0 <= i < s.len() implies p(#[trigger] stable_sorted(s, le)[i]) by {
            assert(p(s[0]));
        }
    }
}

proof fn lemma_inserted_map<A, B>(
    x: A,
    s: Seq<A>,
    f: spec_fn(A) -> B,
    le: spec_fn(A, A) -> bool,
    mapped_le: spec_fn(B, B) -> bool,
)
    requires
        forall|i: int| 0 <= i < s.len() ==> le(x, #[trigger] s[i]) == mapped_le(f(x), f(s[i])),
    ensures
        inserted(f(x), s.map_values(f), mapped_le) == inserted(x, s, le).map_values(f),
    decreases s.len(),
{
    if s.len() == 0 || le(x, s[0]) {
        assert(inserted(f(x), s.map_values(f), mapped_le) == inserted(x, s, le).map_values(f));
    } else {
        let rest = s.drop_first();
        assert forall|i: int| 0 <= i < rest.len() implies le(x, #[trigger] rest[i]) == mapped_le(
            f(x),
            f(rest[i]),
        ) by {
            assert(rest[i] == s[i + 1]);
        }
        lemma_inserted_map(x, rest, f, le, mapped_le);
        assert(s.map_values(f).drop_first() == rest.map_values(f));
        assert(inserted(f(x), s.map_values(f), mapped_le) == inserted(x, s, le).map_values(f));
    }
}

/// Sorting before or after a mapping is the same, where the mapping keeps the
/// order between elements with `ok`.
pub proof fn lemma_sorted_map<A, B>(
    s: Seq<A>,
    f: spec_fn(A) -> B,
    ok: spec_fn(A) -> bool,
    le: spec_fn(A, A) -> bool,
    mapped_le: spec_fn(B, B) -> bool,
)
    requires
        forall|i: int| 0 <= i < s.len() ==> ok(#[trigger] s[i]),
        forall|x: A, y: A|
            ok(x) && ok(y) ==> #[trigger] le(x, y) == mapped_le(f(x), f(y)),
    ensures
        stable_sorted(s.map_values(f), mapped_le) == stable_sorted(s, le).map_values(f),
    decreases s.len(),
{
    if s.len() > 0 {
        let rest = s.drop_first();
        assert forall|i: int| 0 <= i < rest.len() implies ok(#[trigger] rest[i]) by {
            assert(rest[i] == s[i + 1]);
        }
        lemma_sorted_map(rest, f, ok, le, mapped_le);
        lemma_sorted_all(rest, le, ok);
        assert(ok(s[0]));
        lemma_inserted_map(s[0], stable_sorted(rest, le), f, le, mapped_le);
        assert(s.map_values(f).drop_first() == rest.map_values(f));
    } else {
        assert(s.map_values(f) == Seq::<B>::empty());
        assert(stable_sorted(s, le).map_values(f) == Seq::<B>::empty());
    }
}

proof fn lemma_inserted_filter<A>(
    x: A,
    s: Seq<A>,
    le: spec_fn(A, A) -> bool,
    p: spec_fn(A) -> bool,
)
    requires
        total_preorder(le),
        in_order(s, le),
    ensures
        inserted(x, s, le).filter(p) == if p(x) {
            inserted(x, s.filter(p), le)
        } else {
            s.filter(p)
        },
    decreases s.len(),
{
    let res = inserted(x, s, le);
    lemma_filter_first(res, p);
    if s.len() == 0 || le(x, s[0]) {
        assert(res.drop_first() == s);
        if p(x) {
            let kept = s.filter(p);
            if kept.len() > 0 {
                lemma_filter_members(s, p);
                let k = choose|k: int| 0 <= k < s.len() && s[k] == kept[0];
                assert(le(x, kept[0])) by {
                    if k > 0 {
                        assert(le(s[0], s[k]));
                    }
                }
            }
        }
    } else {
        let rest = s.drop_first();
        assert(res.drop_first() == inserted(x, rest, le));
        assert forall|i: int, j: int| 0 <= i < j < rest.len() implies #[trigger] le(
            rest[i],
            rest[j],
        ) by {
            assert(le(s[i + 1], s[j + 1]));
        }
        lemma_inserted_filter(x, rest, le, p);
        lemma_filter_first(s, p);
        if p(s[0]) && p(x) {
            assert(s.filter(p).drop_first() == rest.filter(p));
        }
    }
}

pub proof fn lemma_filter_members<A>(s: Seq<A>, p: spec_fn(A) -> bool)
    ensures
        forall|i: int|
            0 <= i < s.filter(p).len() ==> p(#[trigger] s.filter(p)[i]) && s.contains(
                s.filter(p)[i],
            ),
    decreases s.len(),
{
    if s.len() > 0 {
        let rest = s.drop_first();
        lemma_filter_first(s, p);
        lemma_filter_members(rest, p);
        assert forall|i: int| 0 <= i < s.filter(p).len() implies p(#[trigger] s.filter(p)[i])
            && s.contains(s.filter(p)[i]) by {
            let y = s.filter(p)[i];
            if p(s[0]) && i == 0 {
                assert(y == s[0]);
            } else {
                let at = if p(s[0]) {
                    i - 1
                } else {
                    i
                };
                assert(y == rest.filter(p)[at]);
                let k = choose|k: int| 0 <= k < rest.len() && rest[k] == y;
                assert(s[k + 1] == y);
            }
        }
    } else {
        reveal(Seq::filter);
    }
}

/// Elements that the order does not tell apart stand as they stood before.
pub proof fn law_sorted_ties<A>(
    s: Seq<A>,
    le: spec_fn(A, A) -> bool,
    stood: spec_fn(A, A) -> bool,
    i: int,
    j: int,
)
    requires
        total_preorder(le),
        in_order(s, stood),
        0 <= i < j < s.len(),
        le(stable_sorted(s, le)[j], stable_sorted(s, le)[i]),
    ensures
        stood(stable_sorted(s, le)[i], stable_sorted(s, le)[j]),
{
    let sorted = stable_sorted(s, le);
    law_stable_sorted(s, le);
    let x = sorted[i];
    let p = rank_of(x, le);
    assert(le(sorted[i], sorted[j]));
    assert(le(x, x));
    assert(sorted.filter(p) == s.filter(p));
    crate::rows::lemma_filter_keeps_order(sorted, p, i, j);
    let (a, b) = choose|a: int, b: int|
        0 <= a < b < sorted.filter(p).len() && #[trigger] sorted.filter(p)[a] == sorted[i]
            && #[trigger] sorted.filter(p)[b] == sorted[j];
    crate::rows::lemma_filter_positions(s, p, a, b);
    let (c, d) = choose|c: int, d: int|
        0 <= c < d < s.len() && #[trigger] s[c] == s.filter(p)[a] && #[trigger] s[d] == s.filter(
            p,
        )[b];
    assert(stood(s[c], s[d]));
}

/// Sorting makes nothing occur twice.
pub proof fn lemma_sorted_distinct<A>(s: Seq<A>, le: spec_fn(A, A) -> bool)
    requires
        total_preorder(le),
        s.no_duplicates(),
    ensures
        stable_sorted(s, le).no_duplicates(),
{
    law_stable_sorted(s, le);
    s.lemma_multiset_has_no_duplicates();
    stable_sorted(s, le).lemma_multiset_has_no_duplicates_conv();
}

/// Choosing elements before or after sorting gives the same.
pub proof fn law_sorted_filter<A>(s: Seq<A>, le: spec_fn(A, A) -> bool, p: spec_fn(A) -> bool)
    requires
        total_preorder(le),
    ensures
        stable_sorted(s.filter(p), le) == stable_sorted(s, le).filter(p),
    decreases s.len(),
{
    if s.len() > 0 {
        let rest = s.drop_first();
        law_sorted_filter(rest, le, p);
        law_stable_sorted(rest, le);
        lemma_inserted_filter(s[0], stable_sorted(rest, le), le, p);
        lemma_filter_first(s, p);
        if p(s[0]) {
            assert((seq![s[0]] + rest.filter(p)).drop_first() == rest.filter(p));
        }
    } else {
        reveal(Seq::filter);
    }
}

// ---------------------------------------------------------------------
// Sorting rows by a key
// ---------------------------------------------------------------------

/// Something rows are sorted by.
pub trait Rank: Sized {
    spec fn rank_le(self, other: Self) -> bool;

    fn at_most(&self, other: &Self) -> (res: bool)
        ensures
            res == self.rank_le(*other),
    ;
}

/// The order of rows by their keys.
pub open spec fn by_key<K: Rank, T>() -> spec_fn((K, T), (K, T)) -> bool {
    |a: (K, T), b: (K, T)| a.0.rank_le(b.0)
}

fn insert_row<K: Rank, T>(rows: &mut Vec<(K, T)>, row: (K, T))
    ensures
        final(rows)@ == inserted(row, old(rows)@, by_key::<K, T>()),
{
    let ghost before = rows@;
    let ghost le = by_key::<K, T>();
    let mut at: usize = 0;
    assert(before.skip(0) == before);
    assert(before.take(0) == Seq::<(K, T)>::empty());
    while at < rows.len() && !row.0.at_most(&rows[at].0)
        invariant
            at <= rows@.len(),
            rows@ == before,
            le == by_key::<K, T>(),
            inserted(row, before, le) == before.take(at as int) + inserted(
                row,
                before.skip(at as int),
                le,
            ),
        decreases rows@.len() - at,
    {
        assert(before.skip(at as int).drop_first() == before.skip(at + 1));
        assert(before.take(at + 1) == before.take(at as int) + seq![before[at as int]]);
        assert(before.take(at as int) + (seq![before[at as int]] + inserted(
            row,
            before.skip(at + 1),
            le,
        )) == before.take(at + 1) + inserted(row, before.skip(at + 1), le));
        at += 1;
    }
    rows.insert(at, row);
    assert(rows@ == before.take(at as int) + (seq![row] + before.skip(at as int)));
}

/// Sorts rows by their keys; rows with equal keys keep their order.
pub fn sort_rows<K: Rank, T>(rows: Vec<(K, T)>) -> (res: Vec<(K, T)>)
    ensures
        res@ == stable_sorted(rows@, by_key::<K, T>()),
{
    let ghost all = rows@;
    let mut left = rows;
    let mut res: Vec<(K, T)> = Vec::new();
    assert(all.skip(all.len() as int) == Seq::<(K, T)>::empty());
    while left.len() > 0
        invariant
            left@.len() <= all.len(),
            left@ == all.take(left@.len() as int),
            res@ == stable_sorted(all.skip(left@.len() as int), by_key::<K, T>()),
        decreases left@.len(),
    {
        let ghost count = left@.len() as int;
        let row = left.pop();
        if let Some(row) = row {
            assert(row == all[count - 1]);
            assert(all.skip(count - 1).drop_first() == all.skip(count));
            assert(left@ == all.take(count - 1));
            insert_row(&mut res, row);
        }
    }
    assert(all.skip(0) == all);
    res
}

} // verus!

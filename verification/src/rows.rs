//! Operations on lists of rows.

use vstd::prelude::*;

use crate::sorting::{lemma_filter_first, lemma_filter_members};

verus! {

/// Choosing and mapping can change places where the choice only looks at what
/// the mapping keeps.
pub proof fn lemma_filter_map<A, B>(
    s: Seq<A>,
    f: spec_fn(A) -> B,
    p: spec_fn(A) -> bool,
    q: spec_fn(B) -> bool,
)
    requires
        forall|x: A| #[trigger] p(x) == q(f(x)),
    ensures
        s.filter(p).map_values(f) == s.map_values(f).filter(q),
    decreases s.len(),
{
    if s.len() == 0 {
        reveal(Seq::filter);
        assert(s.filter(p).map_values(f) == s.map_values(f).filter(q));
    } else {
        lemma_filter_map(s.drop_first(), f, p, q);
        lemma_filter_first(s, p);
        lemma_filter_first(s.map_values(f), q);
        assert(s.map_values(f).drop_first() == s.drop_first().map_values(f));
        assert(p(s[0]) == q(f(s[0])));
        if p(s[0]) {
            assert((seq![s[0]] + s.drop_first().filter(p)).map_values(f) == seq![f(s[0])]
                + s.drop_first().filter(p).map_values(f));
        }
    }
}

/// Where the elements stand that a filter keeps: in the order they had.
pub proof fn lemma_filter_positions<A>(s: Seq<A>, p: spec_fn(A) -> bool, i: int, j: int)
    requires
        0 <= i < j < s.filter(p).len(),
    ensures
        exists|a: int, b: int|
            0 <= a < b < s.len() && #[trigger] s[a] == s.filter(p)[i] && #[trigger] s[b]
                == s.filter(p)[j],
    decreases s.len(),
{
    if s.len() == 0 {
        reveal(Seq::filter);
    } else {
        let rest = s.drop_first();
        lemma_filter_first(s, p);
        let shift = if p(s[0]) {
            1int
        } else {
            0int
        };
        assert(s.filter(p)[j] == rest.filter(p)[j - shift]);
        if i - shift >= 0 {
            assert(s.filter(p)[i] == rest.filter(p)[i - shift]);
            lemma_filter_positions(rest, p, i - shift, j - shift);
            let (a, b) = choose|a: int, b: int|
                0 <= a < b < rest.len() && #[trigger] rest[a] == rest.filter(p)[i - shift]
                    && #[trigger] rest[b] == rest.filter(p)[j - shift];
            assert(s[a + 1] == s.filter(p)[i]);
            assert(s[b + 1] == s.filter(p)[j]);
        } else {
            assert(s.filter(p)[i] == s[0]);
            lemma_filter_members(rest, p);
            let b = choose|b: int| 0 <= b < rest.len() && rest[b] == rest.filter(p)[j - shift];
            assert(s[b + 1] == s.filter(p)[j]);
        }
    }
}

/// An element that a filter lets through is among those it keeps.
pub proof fn lemma_filter_contains<A>(s: Seq<A>, p: spec_fn(A) -> bool, i: int)
    requires
        0 <= i < s.len(),
        p(s[i]),
    ensures
        s.filter(p).contains(s[i]),
    decreases s.len(),
{
    lemma_filter_first(s, p);
    let rest = s.drop_first();
    if i == 0 {
        assert(s.filter(p)[0] == s[0]);
    } else {
        lemma_filter_contains(rest, p, i - 1);
        let k = choose|k: int| 0 <= k < rest.filter(p).len() && rest.filter(p)[k] == s[i];
        assert(s.filter(p)[if p(s[0]) {
            k + 1
        } else {
            k
        }] == s[i]);
    }
}

/// Two elements that a filter keeps stand in the order they had.
pub proof fn lemma_filter_keeps_order<A>(s: Seq<A>, p: spec_fn(A) -> bool, i: int, j: int)
    requires
        0 <= i < j < s.len(),
        p(s[i]),
        p(s[j]),
    ensures
        exists|a: int, b: int|
            0 <= a < b < s.filter(p).len() && #[trigger] s.filter(p)[a] == s[i]
                && #[trigger] s.filter(p)[b] == s[j],
    decreases s.len(),
{
    lemma_filter_first(s, p);
    let rest = s.drop_first();
    let kept = rest.filter(p);
    let shift = if p(s[0]) {
        1int
    } else {
        0int
    };
    assert forall|k: int| 0 <= k < kept.len() implies #[trigger] s.filter(p)[k + shift]
        == kept[k] by {}
    if i == 0 {
        lemma_filter_contains(rest, p, j - 1);
        let b = choose|b: int| 0 <= b < kept.len() && kept[b] == rest[j - 1];
        assert(s.filter(p)[0] == s[0]);
        assert(s.filter(p)[b + shift] == s[j]);
    } else {
        lemma_filter_keeps_order(rest, p, i - 1, j - 1);
        let (a, b) = choose|a: int, b: int|
            0 <= a < b < kept.len() && #[trigger] kept[a] == rest[i - 1] && #[trigger] kept[b]
                == rest[j - 1];
        assert(s.filter(p)[a + shift] == s[i]);
        assert(s.filter(p)[b + shift] == s[j]);
    }
}

/// A filter makes nothing occur twice.
pub proof fn lemma_filter_distinct<A>(s: Seq<A>, p: spec_fn(A) -> bool)
    requires
        s.no_duplicates(),
    ensures
        s.filter(p).no_duplicates(),
{
    let kept = s.filter(p);
    assert forall|i: int, j: int| 0 <= i < kept.len() && 0 <= j < kept.len() && i != j implies kept[i]
        != kept[j] by {
        if i < j {
            lemma_filter_positions(s, p, i, j);
        } else {
            lemma_filter_positions(s, p, j, i);
        }
    }
}

/// A filter that every element passes keeps all.
pub proof fn lemma_filter_all<A>(s: Seq<A>, p: spec_fn(A) -> bool)
    requires
        forall|i: int| 0 <= i < s.len() ==> p(#[trigger] s[i]),
    ensures
        s.filter(p) == s,
    decreases s.len(),
{
    reveal(Seq::filter);
    if s.len() > 0 {
        let rest = s.drop_last();
        assert forall|i: int| 0 <= i < rest.len() implies p(#[trigger] rest[i]) by {
            assert(rest[i] == s[i]);
        }
        lemma_filter_all(rest, p);
        assert(rest.push(s.last()) =~= s);
    }
}

/// A filter that no element passes keeps nothing.
pub proof fn lemma_filter_none<A>(s: Seq<A>, p: spec_fn(A) -> bool)
    requires
        forall|i: int| 0 <= i < s.len() ==> !p(#[trigger] s[i]),
    ensures
        s.filter(p) == Seq::<A>::empty(),
    decreases s.len(),
{
    reveal(Seq::filter);
    if s.len() > 0 {
        let rest = s.drop_last();
        assert forall|i: int| 0 <= i < rest.len() implies !p(#[trigger] rest[i]) by {
            assert(rest[i] == s[i]);
        }
        lemma_filter_none(rest, p);
    }
}

/// Drops the rows that `keep` turns down.
pub fn retain_rows<T, F: Fn(&T) -> bool>(
    rows: &mut Vec<T>,
    keep: F,
    Ghost(p): Ghost<spec_fn(T) -> bool>,
)
    requires
        forall|t: &T| #[trigger] keep.requires((t,)),
        forall|t: &T, b: bool| #[trigger] keep.ensures((t,), b) ==> b == p(*t),
    ensures
        final(rows)@ == old(rows)@.filter(p),
{
    let ghost all = rows@;
    let mut i: usize = 0;
    assert(all.take(0) + all.skip(0).filter(p) == all.filter(p)) by {
        assert(all.skip(0) == all);
    }
    while i < rows.len()
        invariant
            i <= rows@.len(),
            forall|t: &T| #[trigger] keep.requires((t,)),
            forall|t: &T, b: bool| #[trigger] keep.ensures((t,), b) ==> b == p(*t),
            all.filter(p) == rows@.take(i as int) + rows@.skip(i as int).filter(p),
        decreases rows@.len() - i,
    {
        let ghost before = rows@;
        proof {
            lemma_filter_first(before.skip(i as int), p);
            assert(before.skip(i as int).drop_first() == before.skip(i + 1));
        }
        if keep(&rows[i]) {
            i += 1;
            assert(before.take(i as int) == before.take(i - 1) + seq![before[i - 1]]);
        } else {
            rows.remove(i);
            assert(rows@.take(i as int) == before.take(i as int));
            assert(rows@.skip(i as int) == before.skip(i + 1));
        }
    }
    proof {
        reveal(Seq::filter);
        assert(rows@.skip(i as int) == Seq::<T>::empty());
        assert(rows@.take(i as int) == rows@);
    }
}

/// Replaces each row for which `change` gives a new one.
pub fn update_rows<T, F: Fn(&T) -> Option<T>>(rows: &mut Vec<T>, change: F)
    requires
        forall|t: &T| #[trigger] change.requires((t,)),
    ensures
        final(rows)@.len() == old(rows)@.len(),
        forall|i: int|
            0 <= i < old(rows)@.len() ==> change.ensures(
                (&old(rows)@[i],),
                Some(#[trigger] final(rows)@[i]),
            ) || (change.ensures((&old(rows)@[i],), None) && final(rows)@[i] == old(rows)@[i]),
{
    let ghost before = rows@;
    let mut i: usize = 0;
    while i < rows.len()
        invariant
            i <= rows@.len(),
            rows@.len() == before.len(),
            forall|t: &T| #[trigger] change.requires((t,)),
            forall|k: int| i <= k < rows@.len() ==> rows@[k] == before[k],
            forall|k: int|
                0 <= k < i ==> change.ensures((&before[k],), Some(#[trigger] rows@[k])) || (
                change.ensures((&before[k],), None) && rows@[k] == before[k]),
        decreases rows@.len() - i,
    {
        match change(&rows[i]) {
            Some(row) => {
                rows.set(i, row);
            },
            None => {},
        }
        i += 1;
    }
}

} // verus!

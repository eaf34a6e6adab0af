//! Running aggregates that several indicators share: a sum that is kept up
//! to date as observations leave the window, and the mean it gives.
use vstd::prelude::*;
use crate::scalar::{
    adds, counts, deterministic, divides, from_count, minus, over, plus, subtracts, zero, zeroes,
    Scalar,
};
use crate::window::{Observation, TimeWindow};

verus! {

/// `to` is what is left of `from` once the values of `gone` have been
/// subtracted from it one by one, oldest first.
pub open spec fn drains<V: Scalar>(gone: Seq<Observation<V>>, from: V, to: V) -> bool
    decreases gone.len(),
{
    if gone.len() == 0 {
        to == from
    } else {
        exists|mid: V|
            drains(gone.drop_last(), from, mid) && #[trigger] subtracts(mid, gone.last().value, to)
    }
}

/// `to` is `from` with the values of `w` added to it one by one, oldest
/// first.
pub open spec fn gathers<V: Scalar>(w: Seq<Observation<V>>, from: V, to: V) -> bool
    decreases w.len(),
{
    if w.len() == 0 {
        to == from
    } else {
        exists|mid: V| gathers(w.drop_last(), from, mid) && #[trigger] adds(mid, w.last().value, to)
    }
}

/// `out` is the mean of `len` values that add up to `sum`: `sum / len`, and
/// zero where there is no value.
pub open spec fn averages<V: Scalar>(sum: V, len: nat, out: V) -> bool {
    if len == 0 {
        zeroes(out)
    } else {
        exists|n: V| #[trigger] counts(len as int, n) && divides(sum, n, out)
    }
}

/// `out` is the plain mean of the values in `w`, added up from zero, oldest
/// first; zero for an empty window.
pub open spec fn means<V: Scalar>(w: Seq<Observation<V>>, out: V) -> bool {
    exists|nothing: V, total: V|
        zeroes(nothing) && #[trigger] gathers(w, nothing, total) && averages(total, w.len(), out)
}

/// With deterministic arithmetic, draining a sum has one result.
pub proof fn drains_once<V: Scalar>(gone: Seq<Observation<V>>, from: V, a: V, b: V)
    requires
        deterministic::<V>(),
        drains(gone, from, a),
        drains(gone, from, b),
    ensures
        a == b,
    decreases gone.len(),
{
    if gone.len() > 0 {
        let x = gone.last().value;
        let ma = choose|m: V| drains(gone.drop_last(), from, m) && subtracts(m, x, a);
        let mb = choose|m: V| drains(gone.drop_last(), from, m) && subtracts(m, x, b);
        drains_once(gone.drop_last(), from, ma, mb);
    }
}

/// With deterministic arithmetic, adding up a window has one result.
pub proof fn gathers_once<V: Scalar>(w: Seq<Observation<V>>, from: V, a: V, b: V)
    requires
        deterministic::<V>(),
        gathers(w, from, a),
        gathers(w, from, b),
    ensures
        a == b,
    decreases w.len(),
{
    if w.len() > 0 {
        let x = w.last().value;
        let ma = choose|m: V| gathers(w.drop_last(), from, m) && adds(m, x, a);
        let mb = choose|m: V| gathers(w.drop_last(), from, m) && adds(m, x, b);
        gathers_once(w.drop_last(), from, ma, mb);
    }
}

/// With deterministic arithmetic, a sum and a count have one mean.
pub proof fn averages_once<V: Scalar>(sum: V, len: nat, a: V, b: V)
    requires
        deterministic::<V>(),
        averages(sum, len, a),
        averages(sum, len, b),
    ensures
        a == b,
{
}

/// With deterministic arithmetic, a window has one plain mean.
pub proof fn means_once<V: Scalar>(w: Seq<Observation<V>>, a: V, b: V)
    requires
        deterministic::<V>(),
        means(w, a),
        means(w, b),
    ensures
        a == b,
{
    let (za, ta) = choose|z: V, t: V| zeroes(z) && gathers(w, z, t) && averages(t, w.len(), a);
    let (zb, tb) = choose|z: V, t: V| zeroes(z) && gathers(w, z, t) && averages(t, w.len(), b);
    gathers_once(w, za, ta, tb);
}

/// `a - b` has a value in `V`.
pub open spec fn subtractable<V: Scalar>(a: V, b: V) -> bool {
    exists|r: V| subtracts(a, b, r)
}

/// Sums and differences in `V` are exact: every difference has a value,
/// taking away what was added gives back what was there, and a value may be
/// taken away before or after another is added.
pub open spec fn exact_sums<V: Scalar>() -> bool {
    &&& forall|a: V, b: V| #[trigger] subtractable(a, b)
    &&& forall|a: V, x: V, s: V, r: V|
        #![trigger adds(a, x, s), subtracts(s, x, r)]
        adds(a, x, s) && subtracts(s, x, r) ==> r == a
    &&& forall|m: V, x: V, y: V, m1: V, s: V, s1: V|
        #![trigger subtracts(m, x, m1), adds(m, y, s), subtracts(s, x, s1)]
        subtracts(m, x, m1) && adds(m, y, s) && subtracts(s, x, s1) ==> adds(m1, y, s1)
}

/// `total` is the sum of the values of `w`, added up from zero, oldest first.
pub open spec fn sums_to<V: Scalar>(w: Seq<Observation<V>>, total: V) -> bool {
    exists|nothing: V| zeroes(nothing) && #[trigger] gathers(w, nothing, total)
}

/// Adding up a window is adding its first value to the start and the rest to
/// that.
pub proof fn gathers_from_the_front<V: Scalar>(w: Seq<Observation<V>>, from: V, to: V)
    requires
        w.len() > 0,
        gathers(w, from, to),
    ensures
        exists|a: V| #[trigger] adds(from, w[0].value, a) && gathers(w.skip(1), a, to),
    decreases w.len(),
{
    let before = w.drop_last();
    let mid = choose|m: V|
        gathers(w.drop_last(), from, m) && #[trigger] adds(m, w.last().value, to);
    if before.len() == 0 {
        assert(w.skip(1).len() == 0);
        assert(adds(from, w[0].value, to) && gathers(w.skip(1), to, to));
    } else {
        gathers_from_the_front(before, from, mid);
        let a = choose|a: V| adds(from, before[0].value, a) && gathers(before.skip(1), a, mid);
        assert(w.skip(1).drop_last() =~= before.skip(1));
        assert(adds(mid, w.skip(1).last().value, to));
        assert(adds(from, w[0].value, a) && gathers(w.skip(1), a, to));
    }
}

/// With exact sums, taking away from the sum of a window a value that stood
/// in the start gives the sum of the window from the start without it.
pub proof fn gathers_without<V: Scalar>(
    w: Seq<Observation<V>>,
    from: V,
    x: V,
    with: V,
    to: V,
    rest: V,
)
    requires
        exact_sums::<V>(),
        adds(from, x, with),
        gathers(w, with, to),
        subtracts(to, x, rest),
    ensures
        gathers(w, from, rest),
    decreases w.len(),
{
    if w.len() > 0 {
        let y = w.last().value;
        let mid = choose|m: V| gathers(w.drop_last(), with, m) && adds(m, y, to);
        assert(subtractable(mid, x));
        let less_x = choose|r: V| subtracts(mid, x, r);
        gathers_without(w.drop_last(), from, x, with, mid, less_x);
        assert(adds(less_x, y, rest));
    }
}

/// With exact sums, a sum of a window from which the values of its first
/// `k` observations are subtracted is the sum of the others.
pub proof fn drained_sum_is_the_rest<V: Scalar>(
    w: Seq<Observation<V>>,
    k: int,
    from: V,
    total: V,
    rest: V,
)
    requires
        exact_sums::<V>(),
        0 <= k <= w.len(),
        gathers(w, from, total),
        drains(w.take(k), total, rest),
    ensures
        gathers(w.skip(k), from, rest),
    decreases k,
{
    if k == 0 {
        assert(w.skip(0) =~= w);
    } else {
        let gone = w.take(k);
        let x = w[k - 1].value;
        assert(gone.last().value == x);
        assert(gone.drop_last() =~= w.take(k - 1));
        let mid = choose|m: V| drains(gone.drop_last(), total, m) && subtracts(m, x, rest);
        drained_sum_is_the_rest(w, k - 1, from, total, mid);
        let tail = w.skip(k - 1);
        gathers_from_the_front(tail, from, mid);
        let a = choose|a: V| adds(from, tail[0].value, a) && gathers(tail.skip(1), a, mid);
        assert(tail.skip(1) =~= w.skip(k));
        gathers_without(w.skip(k), from, x, a, mid, rest);
    }
}

/// Subtracts the values of `gone` from `sum`, oldest first.
pub fn drain<V: Scalar>(sum: V, gone: &Vec<Observation<V>>) -> (r: V)
    ensures
        drains(gone@, sum, r),
{
    let mut acc = sum;
    let mut i: usize = 0;
    while i < gone.len()
        invariant
            i <= gone.len(),
            drains(gone@.take(i as int), sum, acc),
        decreases gone.len() - i,
    {
        let ghost before = acc;
        acc = minus(acc, gone[i].value);
        proof {
            assert(gone@.take(i + 1).drop_last() =~= gone@.take(i as int));
            assert(gone@.take(i + 1).last() == gone@[i as int]);
        }
        i += 1;
    }
    proof {
        assert(gone@.take(gone.len() as int) =~= gone@);
    }
    acc
}

/// The mean of `len` values that add up to `sum`.
pub fn average<V: Scalar>(sum: V, len: usize) -> (out: V)
    ensures
        averages(sum, len as nat, out),
{
    if len == 0 {
        zero()
    } else {
        let n = from_count::<V>(len as u64);
        over(sum, n)
    }
}

/// The plain mean of the values in the window.
pub fn mean_of<V: Scalar>(w: &TimeWindow<V>) -> (out: V)
    ensures
        means(w@, out),
{
    let nothing = zero::<V>();
    let mut acc = nothing;
    let mut i: usize = 0;
    while i < w.len()
        invariant
            i <= w@.len(),
            gathers(w@.take(i as int), nothing, acc),
        decreases w@.len() - i,
    {
        let ghost before = acc;
        acc = plus(acc, w.get(i).value);
        proof {
            assert(w@.take(i + 1).drop_last() =~= w@.take(i as int));
            assert(w@.take(i + 1).last() == w@[i as int]);
        }
        i += 1;
    }
    proof {
        assert(w@.take(w@.len() as int) =~= w@);
    }
    average(acc, w.len())
}

} // verus!

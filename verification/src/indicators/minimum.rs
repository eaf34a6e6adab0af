use vstd::prelude::*;
use crate::error::TaError;
use crate::laws::{
    functional, preserved, run_keeps, run_stays_bounded, runs, same_start_same_run, windowed,
};
use crate::scalar::{
    answered, deterministic, infinity, less, orders, strictly_ordered, tops, Scalar,
};
use crate::text::{decimal, decimal_label, wrap};
use crate::time::{Duration, Timestamp};
use crate::traits::{Next, Reset};
use crate::window::{
    admitted, in_order, stale_prefix, stale_prefix_is_longest, within, Boundary, Observation,
    TimeWindow,
};

verus! {

/// The least value in the window. The value is cached: a new observation
/// that improves on it replaces it at once, any other makes the indicator
/// scan the window again, since the cached value may just have left it.
pub struct Minimum<V> {
    window: TimeWindow<V>,
    min_value: V,
}

/// What a [`Minimum`] holds.
pub struct MinState<V> {
    pub duration: Duration,
    pub window: Seq<Observation<V>>,
    pub min_value: V,
}

impl<V> View for Minimum<V> {
    type V = MinState<V>;

    closed spec fn view(&self) -> MinState<V> {
        MinState {
            duration: self.window.spec_duration(),
            window: self.window@,
            min_value: self.min_value,
        }
    }
}

/// `to` is `value` where `value` is below `from`, else `from`.
pub open spec fn undercuts<V: Scalar>(from: V, value: V, to: V) -> bool {
    exists|better: bool| #[trigger] orders(value, from, better) && to == if better {
        value
    } else {
        from
    }
}

/// `to` is the least of `from` and the values of `w`, compared one by one,
/// oldest first.
pub open spec fn lowers<V: Scalar>(w: Seq<Observation<V>>, from: V, to: V) -> bool
    decreases w.len(),
{
    if w.len() == 0 {
        to == from
    } else {
        exists|mid: V|
            lowers(w.drop_last(), from, mid) && #[trigger] undercuts(mid, w.last().value, to)
    }
}

/// `out` is the least of the values of `w`, found by a scan that starts
/// from the value that none exceeds.
pub open spec fn bottoms_out<V: Scalar>(w: Seq<Observation<V>>, out: V) -> bool {
    exists|seed: V| tops(seed) && #[trigger] lowers(w, seed, out)
}

/// With deterministic arithmetic, a scan for the extreme value has one result.
pub proof fn lowers_once<V: Scalar>(
    w: Seq<Observation<V>>,
    from: V,
    a: V,
    b: V,
)
    requires
        deterministic::<V>(),
        lowers(w, from, a),
        lowers(w, from, b),
    ensures
        a == b,
    decreases w.len(),
{
    if w.len() > 0 {
        let x = w.last().value;
        let ma = choose|m: V| lowers(w.drop_last(), from, m) && undercuts(m, x, a);
        let mb = choose|m: V| lowers(w.drop_last(), from, m) && undercuts(m, x, b);
        lowers_once(w.drop_last(), from, ma, mb);
    }
}

/// With deterministic arithmetic, a window has one extreme value.
pub proof fn bottoms_out_once<V: Scalar>(w: Seq<Observation<V>>, a: V, b: V)
    requires
        deterministic::<V>(),
        bottoms_out(w, a),
        bottoms_out(w, b),
    ensures
        a == b,
{
    let sa = choose|seed: V| tops(seed) && lowers(w, seed, a);
    let sb = choose|seed: V| tops(seed) && lowers(w, seed, b);
    lowers_once(w, sa, a, b);
}

/// Nothing in `w` is below `m`.
pub open spec fn under_all<V: Scalar>(w: Seq<Observation<V>>, m: V) -> bool {
    forall|i: int| 0 <= i < w.len() ==> !(#[trigger] orders(w[i].value, m, true))
}

/// A scan ends on the value it started from or on a value of the window.
pub proof fn lowers_picks<V: Scalar>(w: Seq<Observation<V>>, from: V, to: V)
    requires
        lowers(w, from, to),
    ensures
        to == from || exists|i: int| 0 <= i < w.len() && (#[trigger] w[i]).value == to,
    decreases w.len(),
{
    if w.len() > 0 {
        let x = w.last().value;
        let mid = choose|m: V| lowers(w.drop_last(), from, m) && undercuts(m, x, to);
        lowers_picks(w.drop_last(), from, mid);
        if to == x {
            assert(w[w.len() - 1].value == to);
        } else if mid != from {
            let rest = w.drop_last();
            let i = choose|i: int| 0 <= i < rest.len() && (#[trigger] rest[i]).value == mid;
            assert(w[i].value == to);
        }
    }
}

/// Where `less` is a strict order with one answer to every question, a scan
/// ends on a value that nothing in the window is below, and that is the
/// value it started from or below it.
pub proof fn lowers_bounds<V: Scalar>(w: Seq<Observation<V>>, from: V, to: V)
    requires
        deterministic::<V>(),
        strictly_ordered::<V>(),
        lowers(w, from, to),
    ensures
        under_all(w, to),
        to == from || orders(to, from, true),
    decreases w.len(),
{
    if w.len() > 0 {
        let rest = w.drop_last();
        let x = w.last().value;
        let mid = choose|m: V| lowers(rest, from, m) && undercuts(m, x, to);
        lowers_bounds(rest, from, mid);
        let better = choose|better: bool| orders(x, mid, better) && to == if better {
            x
        } else {
            mid
        };
        assert forall|i: int| 0 <= i < w.len() implies !(#[trigger] orders(
            w[i].value, to,
            true,
        )) by {
            if i < rest.len() {
                assert(w[i] == rest[i]);
                assert(!orders(rest[i].value, mid, true));
                if better {
                    assert(answered(w[i].value, mid));
                }
            }
        }
        if better && mid != from {
            assert(answered(x, from));
        }
    }
}

/// The least of the values in the window, by a scan.
pub fn least_of<V: Scalar>(w: &TimeWindow<V>) -> (out: V)
    ensures
        bottoms_out(w@, out),
{
    let seed = infinity::<V>();
    let mut acc = seed;
    let mut i: usize = 0;
    while i < w.len()
        invariant
            i <= w@.len(),
            lowers(w@.take(i as int), seed, acc),
        decreases w@.len() - i,
    {
        let ghost before = acc;
        let value = w.get(i).value;
        if less(value, acc) {
            acc = value;
        }
        proof {
            assert(w@.take(i + 1).drop_last() =~= w@.take(i as int));
            assert(w@.take(i + 1).last() == w@[i as int]);
            assert(undercuts(before, value, acc));
        }
        i += 1;
    }
    proof {
        assert(w@.take(w@.len() as int) =~= w@);
    }
    acc
}

impl<V: Scalar> Minimum<V> {
    /// `s` is a state that `new(duration)` may return.
    pub open spec fn starts(duration: Duration, s: MinState<V>) -> bool {
        &&& s.duration == duration
        &&& duration@ > 0
        &&& s.window == Seq::<Observation<V>>::empty()
        &&& tops(s.min_value)
    }

    /// `post` is a state that `reset` may leave behind in state `pre`.
    pub open spec fn restarts(pre: MinState<V>, post: MinState<V>) -> bool {
        &&& post.duration == pre.duration
        &&& post.window == Seq::<Observation<V>>::empty()
        &&& tops(post.min_value)
    }

    /// In state `pre`, `next((time, value))` may leave the state `post` and
    /// return `out`: the window takes the observation in; a value below the
    /// cached least becomes the cached least, any other value has it
    /// found again by a scan of the window; the reading is the cached
    /// least.
    pub open spec fn steps(
        pre: MinState<V>,
        time: Timestamp,
        value: V,
        post: MinState<V>,
        out: V,
    ) -> bool {
        &&& post.duration == pre.duration
        &&& post.window == admitted(pre.window, time, value, pre.duration, Boundary::Exclusive)
        &&& exists|better: bool| #[trigger]
            orders(value, pre.min_value, better) && if better {
                post.min_value == value
            } else {
                bottoms_out(post.window, post.min_value)
            }
        &&& out == post.min_value
    }

    /// The step relation as a value, for the laws that speak of whole runs.
    pub open spec fn stepper() -> spec_fn(MinState<V>, Timestamp, V, MinState<V>, V) -> bool {
        |s: MinState<V>, t: Timestamp, v: V, p: MinState<V>, o: V| Self::steps(s, t, v, p, o)
    }

    /// With deterministic arithmetic, a state and an input leave one next
    /// state and one reading.
    pub proof fn steps_once(
        s: MinState<V>,
        t: Timestamp,
        v: V,
        p: MinState<V>,
        o: V,
        q: MinState<V>,
        u: V,
    )
        requires
            deterministic::<V>(),
            Self::steps(s, t, v, p, o),
            Self::steps(s, t, v, q, u),
        ensures
            p == q,
            o == u,
    {
        let ba = choose|better: bool|
            orders(v, s.min_value, better) && if better {
                p.min_value == v
            } else {
                bottoms_out(p.window, p.min_value)
            };
        let bb = choose|better: bool|
            orders(v, s.min_value, better) && if better {
                q.min_value == v
            } else {
                bottoms_out(q.window, q.min_value)
            };
        assert(ba == bb);
        if !ba {
            bottoms_out_once(p.window, p.min_value, q.min_value);
        }
    }

    /// Idempotence of reset: with deterministic arithmetic, an instance that
    /// was fed `inputs` from new, then reset, then fed `inputs` again,
    /// returns the same readings both times.
    pub proof fn reset_replays(
        duration: Duration,
        inputs: Seq<Observation<V>>,
        first: Seq<MinState<V>>,
        told: Seq<V>,
        again: Seq<MinState<V>>,
        retold: Seq<V>,
    )
        requires
            deterministic::<V>(),
            Self::starts(duration, first[0]),
            runs(Self::stepper(), first, inputs, told),
            Self::restarts(first.last(), again[0]),
            runs(Self::stepper(), again, inputs, retold),
        ensures
            retold == told,
    {
        let step = Self::stepper();
        let kept = |s: MinState<V>| s.duration == duration;
        assert(preserved(step, kept));
        run_keeps(step, kept, inputs, first, told, inputs.len() as int);
        assert(again[0] == first[0]);
        assert(functional(step)) by {
            assert forall|
                s: MinState<V>,
                t: Timestamp,
                v: V,
                p: MinState<V>,
                o: V,
                q: MinState<V>,
                u: V,
            |
                #![trigger step(s, t, v, p, o), step(s, t, v, q, u)]
                step(s, t, v, p, o) && step(s, t, v, q, u) implies p == q && o == u by {
                Self::steps_once(s, t, v, p, o, q, u);
            }
        }
        same_start_same_run(step, inputs, first, told, again, retold);
    }

    /// Boundedness: fed inputs whose timestamps never go back, a new
    /// instance holds its observations in order and holds none that is
    /// older than its duration relative to the most recent input.
    pub proof fn window_stays_bounded(
        duration: Duration,
        inputs: Seq<Observation<V>>,
        states: Seq<MinState<V>>,
        outs: Seq<V>,
    )
        requires
            Self::starts(duration, states[0]),
            runs(Self::stepper(), states, inputs, outs),
            in_order(inputs),
            inputs.len() > 0,
        ensures
            in_order(states.last().window),
            within(states.last().window, inputs.last().time, duration, Boundary::Exclusive),
    {
        let step = Self::stepper();
        let window_of = |s: MinState<V>| s.window;
        let span_of = |s: MinState<V>| s.duration;
        assert(windowed(step, window_of, span_of, Boundary::Exclusive));
        run_stays_bounded(step, window_of, span_of, Boundary::Exclusive, inputs, states, outs);
    }

    /// The reading is a value of the window, or the value that the scan
    /// starts from where the window holds nothing that is below it.
    pub proof fn reading_is_picked(
        pre: MinState<V>,
        time: Timestamp,
        value: V,
        post: MinState<V>,
        out: V,
    )
        requires
            Self::steps(pre, time, value, post, out),
        ensures
            tops(out) || exists|i: int|
                0 <= i < post.window.len() && (#[trigger] post.window[i]).value == out,
    {
        let better = choose|better: bool|
            orders(value, pre.min_value, better) && if better {
                post.min_value == value
            } else {
                bottoms_out(post.window, post.min_value)
            };
        if better {
            assert(post.window[post.window.len() - 1].value == out);
        } else {
            let seed = choose|seed: V| tops(seed) && lowers(post.window, seed, out);
            lowers_picks(post.window, seed, out);
        }
    }

    /// Where `less` is a strict order with one answer to every question,
    /// the reading after any inputs is a value that nothing in the window is below.
    pub proof fn reading_bounds_the_window(
        duration: Duration,
        inputs: Seq<Observation<V>>,
        states: Seq<MinState<V>>,
        outs: Seq<V>,
    )
        requires
            deterministic::<V>(),
            strictly_ordered::<V>(),
            Self::starts(duration, states[0]),
            runs(Self::stepper(), states, inputs, outs),
            inputs.len() > 0,
        ensures
            under_all(states.last().window, outs.last()),
    {
        let step = Self::stepper();
        let kept = |s: MinState<V>| under_all(s.window, s.min_value);
        assert(preserved(step, kept)) by {
            assert forall|s: MinState<V>, t: Timestamp, v: V, p: MinState<V>, o: V| #[trigger]
                step(s, t, v, p, o) && kept(s) implies kept(p) by {
                Self::step_keeps_bound(s, t, v, p, o);
            }
        }
        run_keeps(step, kept, inputs, states, outs, inputs.len() as int);
        let n = inputs.len() - 1;
        assert(step(states[n], inputs[n].time, inputs[n].value, states[n + 1], outs[n]));
    }

    proof fn step_keeps_bound(s: MinState<V>, t: Timestamp, v: V, p: MinState<V>, o: V)
        requires
            deterministic::<V>(),
            strictly_ordered::<V>(),
            Self::steps(s, t, v, p, o),
            under_all(s.window, s.min_value),
        ensures
            under_all(p.window, p.min_value),
    {
        let better = choose|better: bool|
            orders(v, s.min_value, better) && if better {
                p.min_value == v
            } else {
                bottoms_out(p.window, p.min_value)
            };
        if better {
            stale_prefix_is_longest(s.window, t, s.duration, Boundary::Exclusive);
            let k = stale_prefix(s.window, t, s.duration, Boundary::Exclusive) as int;
            assert forall|i: int| 0 <= i < p.window.len() implies !(#[trigger] orders(
                p.window[i].value, v,
                true,
            )) by {
                if i < p.window.len() - 1 {
                    assert(p.window[i] == s.window[k + i]);
                    assert(!orders(s.window[k + i].value, s.min_value, true));
                    assert(answered(p.window[i].value, s.min_value));
                }
            }
        } else {
            let seed = choose|seed: V| tops(seed) && lowers(p.window, seed, p.min_value);
            lowers_bounds(p.window, seed, p.min_value);
        }
    }

    /// A new indicator over `duration`. A duration that is not positive is
    /// refused.
    pub fn new(duration: Duration) -> (r: Result<Self, TaError>)
        ensures
            duration@ > 0 <==> r is Ok,
            r is Err ==> r == Err::<Self, TaError>(TaError::InvalidParameter),
            r is Ok ==> Self::starts(duration, r.unwrap()@),
    {
        match TimeWindow::new(duration) {
            Ok(window) => Ok(Minimum { window, min_value: infinity() }),
            Err(e) => Err(e),
        }
    }
}

impl<V: Scalar> Minimum<V> {
    /// The name of the indicator and, in brackets, the whole days of its duration.
    pub fn label(&self) -> (r: String)
        ensures
            r@ == "MIN("@ + decimal(self@.duration.spec_num_days()) + " days)"@,
    {
        wrap("MIN(", &decimal_label(self.window.duration().num_days()), " days)")
    }
}

impl<V: Scalar> Default for Minimum<V> {
    /// An instance over fourteen days.
    fn default() -> (r: Self)
        ensures
            Minimum::<V>::starts(Duration::of_seconds(1_209_600), r@),
    {
        match Self::new(Duration::days(14)) {
            Ok(fresh) => fresh,
            Err(_) => unreached(),
        }
    }
}

impl<V: Scalar> Next<V> for Minimum<V> {
    type Output = V;

    fn next(&mut self, input: (Timestamp, V)) -> (out: V)
        ensures
            Self::steps(old(self)@, input.0, input.1, final(self)@, out),
    {
        let (time, value) = input;
        let _ = self.window.evict_older_than(time, Boundary::Exclusive);
        self.window.push(time, value);
        let better = less(value, self.min_value);
        assert(orders(value, old(self)@.min_value, better));
        if better {
            self.min_value = value;
        } else {
            self.min_value = least_of(&self.window);
        }
        self.min_value
    }
}

impl<V: Scalar> Reset for Minimum<V> {
    fn reset(&mut self)
        ensures
            Self::restarts(old(self)@, final(self)@),
    {
        self.window.clear();
        self.min_value = infinity();
    }
}

} // verus!

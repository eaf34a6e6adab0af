use vstd::prelude::*;
use crate::error::TaError;
use crate::laws::{
    functional, preserved, run_keeps, run_stays_bounded, runs, same_start_same_run, windowed,
};
use crate::scalar::{
    answered, bottoms, deterministic, less, neg_infinity, orders, strictly_ordered, Scalar,
};
use crate::text::{decimal, decimal_label, wrap};
use crate::time::{Duration, Timestamp};
use crate::traits::{Next, Reset};
use crate::window::{
    admitted, in_order, stale_prefix, stale_prefix_is_longest, within, Boundary, Observation,
    TimeWindow,
};

verus! {

/// The greatest value in the window. The value is cached: a new observation
/// that improves on it replaces it at once, any other makes the indicator
/// scan the window again, since the cached value may just have left it.
pub struct Maximum<V> {
    window: TimeWindow<V>,
    max_value: V,
}

/// What a [`Maximum`] holds.
pub struct MaxState<V> {
    pub duration: Duration,
    pub window: Seq<Observation<V>>,
    pub max_value: V,
}

impl<V> View for Maximum<V> {
    type V = MaxState<V>;

    closed spec fn view(&self) -> MaxState<V> {
        MaxState {
            duration: self.window.spec_duration(),
            window: self.window@,
            max_value: self.max_value,
        }
    }
}

/// `to` is `value` where `value` is above `from`, else `from`.
pub open spec fn overtops<V: Scalar>(from: V, value: V, to: V) -> bool {
    exists|better: bool| #[trigger] orders(from, value, better) && to == if better {
        value
    } else {
        from
    }
}

/// `to` is the greatest of `from` and the values of `w`, compared one by one,
/// oldest first.
pub open spec fn raises<V: Scalar>(w: Seq<Observation<V>>, from: V, to: V) -> bool
    decreases w.len(),
{
    if w.len() == 0 {
        to == from
    } else {
        exists|mid: V|
            raises(w.drop_last(), from, mid) && #[trigger] overtops(mid, w.last().value, to)
    }
}

/// `out` is the greatest of the values of `w`, found by a scan that starts
/// from the value that exceeds none.
pub open spec fn peaks_at<V: Scalar>(w: Seq<Observation<V>>, out: V) -> bool {
    exists|seed: V| bottoms(seed) && #[trigger] raises(w, seed, out)
}

/// With deterministic arithmetic, a scan for the extreme value has one result.
pub proof fn raises_once<V: Scalar>(
    w: Seq<Observation<V>>,
    from: V,
    a: V,
    b: V,
)
    requires
        deterministic::<V>(),
        raises(w, from, a),
        raises(w, from, b),
    ensures
        a == b,
    decreases w.len(),
{
    if w.len() > 0 {
        let x = w.last().value;
        let ma = choose|m: V| raises(w.drop_last(), from, m) && overtops(m, x, a);
        let mb = choose|m: V| raises(w.drop_last(), from, m) && overtops(m, x, b);
        raises_once(w.drop_last(), from, ma, mb);
    }
}

/// With deterministic arithmetic, a window has one extreme value.
pub proof fn peaks_at_once<V: Scalar>(w: Seq<Observation<V>>, a: V, b: V)
    requires
        deterministic::<V>(),
        peaks_at(w, a),
        peaks_at(w, b),
    ensures
        a == b,
{
    let sa = choose|seed: V| bottoms(seed) && raises(w, seed, a);
    let sb = choose|seed: V| bottoms(seed) && raises(w, seed, b);
    raises_once(w, sa, a, b);
}

/// Nothing in `w` is above `m`.
pub open spec fn over_all<V: Scalar>(w: Seq<Observation<V>>, m: V) -> bool {
    forall|i: int| 0 <= i < w.len() ==> !(#[trigger] orders(m, w[i].value, true))
}

/// A scan ends on the value it started from or on a value of the window.
pub proof fn raises_picks<V: Scalar>(w: Seq<Observation<V>>, from: V, to: V)
    requires
        raises(w, from, to),
    ensures
        to == from || exists|i: int| 0 <= i < w.len() && (#[trigger] w[i]).value == to,
    decreases w.len(),
{
    if w.len() > 0 {
        let x = w.last().value;
        let mid = choose|m: V| raises(w.drop_last(), from, m) && overtops(m, x, to);
        raises_picks(w.drop_last(), from, mid);
        if to == x {
            assert(w[w.len() - 1].value == to);
        } else if mid != from {
            let rest = w.drop_last();
            let i = choose|i: int| 0 <= i < rest.len() && (#[trigger] rest[i]).value == mid;
            assert(w[i].value == to);
        }
    }
}

/// Where `less` is a strict order with one answer to every question, a scan
/// ends on a value that nothing in the window is above, and that is the
/// value it started from or above it.
pub proof fn raises_bounds<V: Scalar>(w: Seq<Observation<V>>, from: V, to: V)
    requires
        deterministic::<V>(),
        strictly_ordered::<V>(),
        raises(w, from, to),
    ensures
        over_all(w, to),
        to == from || orders(from, to, true),
    decreases w.len(),
{
    if w.len() > 0 {
        let rest = w.drop_last();
        let x = w.last().value;
        let mid = choose|m: V| raises(rest, from, m) && overtops(m, x, to);
        raises_bounds(rest, from, mid);
        let better = choose|better: bool| orders(mid, x, better) && to == if better {
            x
        } else {
            mid
        };
        assert forall|i: int| 0 <= i < w.len() implies !(#[trigger] orders(
            to, w[i].value,
            true,
        )) by {
            if i < rest.len() {
                assert(w[i] == rest[i]);
                assert(!orders(mid, rest[i].value, true));
                if better {
                    assert(answered(mid, w[i].value));
                }
            }
        }
        if better && mid != from {
            assert(answered(from, x));
        }
    }
}

/// The greatest of the values in the window, by a scan.
pub fn greatest_of<V: Scalar>(w: &TimeWindow<V>) -> (out: V)
    ensures
        peaks_at(w@, out),
{
    let seed = neg_infinity::<V>();
    let mut acc = seed;
    let mut i: usize = 0;
    while i < w.len()
        invariant
            i <= w@.len(),
            raises(w@.take(i as int), seed, acc),
        decreases w@.len() - i,
    {
        let ghost before = acc;
        let value = w.get(i).value;
        if less(acc, value) {
            acc = value;
        }
        proof {
            assert(w@.take(i + 1).drop_last() =~= w@.take(i as int));
            assert(w@.take(i + 1).last() == w@[i as int]);
            assert(overtops(before, value, acc));
        }
        i += 1;
    }
    proof {
        assert(w@.take(w@.len() as int) =~= w@);
    }
    acc
}

impl<V: Scalar> Maximum<V> {
    /// `s` is a state that `new(duration)` may return.
    pub open spec fn starts(duration: Duration, s: MaxState<V>) -> bool {
        &&& s.duration == duration
        &&& duration@ > 0
        &&& s.window == Seq::<Observation<V>>::empty()
        &&& bottoms(s.max_value)
    }

    /// `post` is a state that `reset` may leave behind in state `pre`.
    pub open spec fn restarts(pre: MaxState<V>, post: MaxState<V>) -> bool {
        &&& post.duration == pre.duration
        &&& post.window == Seq::<Observation<V>>::empty()
        &&& bottoms(post.max_value)
    }

    /// In state `pre`, `next((time, value))` may leave the state `post` and
    /// return `out`: the window takes the observation in; a value above the
    /// cached greatest becomes the cached greatest, any other value has it
    /// found again by a scan of the window; the reading is the cached
    /// greatest.
    pub open spec fn steps(
        pre: MaxState<V>,
        time: Timestamp,
        value: V,
        post: MaxState<V>,
        out: V,
    ) -> bool {
        &&& post.duration == pre.duration
        &&& post.window == admitted(pre.window, time, value, pre.duration, Boundary::Exclusive)
        &&& exists|better: bool| #[trigger]
            orders(pre.max_value, value, better) && if better {
                post.max_value == value
            } else {
                peaks_at(post.window, post.max_value)
            }
        &&& out == post.max_value
    }

    /// The step relation as a value, for the laws that speak of whole runs.
    pub open spec fn stepper() -> spec_fn(MaxState<V>, Timestamp, V, MaxState<V>, V) -> bool {
        |s: MaxState<V>, t: Timestamp, v: V, p: MaxState<V>, o: V| Self::steps(s, t, v, p, o)
    }

    /// With deterministic arithmetic, a state and an input leave one next
    /// state and one reading.
    pub proof fn steps_once(
        s: MaxState<V>,
        t: Timestamp,
        v: V,
        p: MaxState<V>,
        o: V,
        q: MaxState<V>,
        u: V,
    )
        requires
            deterministic::<V>(),
            Self::steps(s, t, v, p, o),
            Self::steps(s, t, v, q, u),
        ensures
            p == q,
            o == u,
    {
        let ba = choose|better: bool|
            orders(s.max_value, v, better) && if better {
                p.max_value == v
            } else {
                peaks_at(p.window, p.max_value)
            };
        let bb = choose|better: bool|
            orders(s.max_value, v, better) && if better {
                q.max_value == v
            } else {
                peaks_at(q.window, q.max_value)
            };
        assert(ba == bb);
        if !ba {
            peaks_at_once(p.window, p.max_value, q.max_value);
        }
    }

    /// Idempotence of reset: with deterministic arithmetic, an instance that
    /// was fed `inputs` from new, then reset, then fed `inputs` again,
    /// returns the same readings both times.
    pub proof fn reset_replays(
        duration: Duration,
        inputs: Seq<Observation<V>>,
        first: Seq<MaxState<V>>,
        told: Seq<V>,
        again: Seq<MaxState<V>>,
        retold: Seq<V>,
    )
        requires
            deterministic::<V>(),
            Self::starts(duration, first[0]),
            runs(Self::stepper(), first, inputs, told),
            Self::restarts(first.last(), again[0]),
            runs(Self::stepper(), again, inputs, retold),
        ensures
            retold == told,
    {
        let step = Self::stepper();
        let kept = |s: MaxState<V>| s.duration == duration;
        assert(preserved(step, kept));
        run_keeps(step, kept, inputs, first, told, inputs.len() as int);
        assert(again[0] == first[0]);
        assert(functional(step)) by {
            assert forall|
                s: MaxState<V>,
                t: Timestamp,
                v: V,
                p: MaxState<V>,
                o: V,
                q: MaxState<V>,
                u: V,
            |
                #![trigger step(s, t, v, p, o), step(s, t, v, q, u)]
                step(s, t, v, p, o) && step(s, t, v, q, u) implies p == q && o == u by {
                Self::steps_once(s, t, v, p, o, q, u);
            }
        }
        same_start_same_run(step, inputs, first, told, again, retold);
    }

    /// Boundedness: fed inputs whose timestamps never go back, a new
    /// instance holds its observations in order and holds none that is
    /// older than its duration relative to the most recent input.
    pub proof fn window_stays_bounded(
        duration: Duration,
        inputs: Seq<Observation<V>>,
        states: Seq<MaxState<V>>,
        outs: Seq<V>,
    )
        requires
            Self::starts(duration, states[0]),
            runs(Self::stepper(), states, inputs, outs),
            in_order(inputs),
            inputs.len() > 0,
        ensures
            in_order(states.last().window),
            within(states.last().window, inputs.last().time, duration, Boundary::Exclusive),
    {
        let step = Self::stepper();
        let window_of = |s: MaxState<V>| s.window;
        let span_of = |s: MaxState<V>| s.duration;
        assert(windowed(step, window_of, span_of, Boundary::Exclusive));
        run_stays_bounded(step, window_of, span_of, Boundary::Exclusive, inputs, states, outs);
    }

    /// The reading is a value of the window, or the value that the scan
    /// starts from where the window holds nothing that is above it.
    pub proof fn reading_is_picked(
        pre: MaxState<V>,
        time: Timestamp,
        value: V,
        post: MaxState<V>,
        out: V,
    )
        requires
            Self::steps(pre, time, value, post, out),
        ensures
            bottoms(out) || exists|i: int|
                0 <= i < post.window.len() && (#[trigger] post.window[i]).value == out,
    {
        let better = choose|better: bool|
            orders(pre.max_value, value, better) && if better {
                post.max_value == value
            } else {
                peaks_at(post.window, post.max_value)
            };
        if better {
            assert(post.window[post.window.len() - 1].value == out);
        } else {
            let seed = choose|seed: V| bottoms(seed) && raises(post.window, seed, out);
            raises_picks(post.window, seed, out);
        }
    }

    /// Where `less` is a strict order with one answer to every question,
    /// the reading after any inputs is a value that nothing in the window is above.
    pub proof fn reading_bounds_the_window(
        duration: Duration,
        inputs: Seq<Observation<V>>,
        states: Seq<MaxState<V>>,
        outs: Seq<V>,
    )
        requires
            deterministic::<V>(),
            strictly_ordered::<V>(),
            Self::starts(duration, states[0]),
            runs(Self::stepper(), states, inputs, outs),
            inputs.len() > 0,
        ensures
            over_all(states.last().window, outs.last()),
    {
        let step = Self::stepper();
        let kept = |s: MaxState<V>| over_all(s.window, s.max_value);
        assert(preserved(step, kept)) by {
            assert forall|s: MaxState<V>, t: Timestamp, v: V, p: MaxState<V>, o: V| #[trigger]
                step(s, t, v, p, o) && kept(s) implies kept(p) by {
                Self::step_keeps_bound(s, t, v, p, o);
            }
        }
        run_keeps(step, kept, inputs, states, outs, inputs.len() as int);
        let n = inputs.len() - 1;
        assert(step(states[n], inputs[n].time, inputs[n].value, states[n + 1], outs[n]));
    }

    proof fn step_keeps_bound(s: MaxState<V>, t: Timestamp, v: V, p: MaxState<V>, o: V)
        requires
            deterministic::<V>(),
            strictly_ordered::<V>(),
            Self::steps(s, t, v, p, o),
            over_all(s.window, s.max_value),
        ensures
            over_all(p.window, p.max_value),
    {
        let better = choose|better: bool|
            orders(s.max_value, v, better) && if better {
                p.max_value == v
            } else {
                peaks_at(p.window, p.max_value)
            };
        if better {
            stale_prefix_is_longest(s.window, t, s.duration, Boundary::Exclusive);
            let k = stale_prefix(s.window, t, s.duration, Boundary::Exclusive) as int;
            assert forall|i: int| 0 <= i < p.window.len() implies !(#[trigger] orders(
                v, p.window[i].value,
                true,
            )) by {
                if i < p.window.len() - 1 {
                    assert(p.window[i] == s.window[k + i]);
                    assert(!orders(s.max_value, s.window[k + i].value, true));
                    assert(answered(s.max_value, p.window[i].value));
                }
            }
        } else {
            let seed = choose|seed: V| bottoms(seed) && raises(p.window, seed, p.max_value);
            raises_bounds(p.window, seed, p.max_value);
        }
    }

    /// A new indicator over `duration`. A duration that is not positive is
    /// refused.
    pub fn new(duration: Duration) -> (r: Result<Self, TaError>)
        ensures
            duration@ > 0 <==> r is Ok,
            r is Err ==> r == Err::<Self, TaError>(TaError::InvalidParameter),
            r is Ok ==> Self::starts(duration, r.unwrap()@),
    {
        match TimeWindow::new(duration) {
            Ok(window) => Ok(Maximum { window, max_value: neg_infinity() }),
            Err(e) => Err(e),
        }
    }
}

impl<V: Scalar> Maximum<V> {
    /// The name of the indicator and, in brackets, the whole seconds of its duration.
    pub fn label(&self) -> (r: String)
        ensures
            r@ == "MAX("@ + decimal(self@.duration.spec_num_seconds()) + "s)"@,
    {
        wrap("MAX(", &decimal_label(self.window.duration().num_seconds()), "s)")
    }
}

impl<V: Scalar> Default for Maximum<V> {
    /// An instance over fourteen days.
    fn default() -> (r: Self)
        ensures
            Maximum::<V>::starts(Duration::of_seconds(1_209_600), r@),
    {
        match Self::new(Duration::days(14)) {
            Ok(fresh) => fresh,
            Err(_) => unreached(),
        }
    }
}

impl<V: Scalar> Next<V> for Maximum<V> {
    type Output = V;

    fn next(&mut self, input: (Timestamp, V)) -> (out: V)
        ensures
            Self::steps(old(self)@, input.0, input.1, final(self)@, out),
    {
        let (time, value) = input;
        let _ = self.window.evict_older_than(time, Boundary::Exclusive);
        self.window.push(time, value);
        let better = less(self.max_value, value);
        assert(orders(old(self)@.max_value, value, better));
        if better {
            self.max_value = value;
        } else {
            self.max_value = greatest_of(&self.window);
        }
        self.max_value
    }
}

impl<V: Scalar> Reset for Maximum<V> {
    fn reset(&mut self)
        ensures
            Self::restarts(old(self)@, final(self)@),
    {
        self.window.clear();
        self.max_value = neg_infinity();
    }
}

} // verus!

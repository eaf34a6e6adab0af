use vstd::prelude::*;
use crate::error::TaError;
use crate::indicators::simple_moving_average::{
    roll, rolled_sum_is_the_sum, rolls, rolls_once,
};
use crate::laws::{
    functional, preserved, run_keeps, run_stays_bounded, runs, same_start_same_run, windowed,
};
use crate::running::{average, averages, averages_once, exact_sums, gathers, sums_to};
use crate::scalar::{
    adds, deterministic, magnitude, measures, minus, plus, subtracts, zero, zeroes, Scalar,
};
use crate::text::wrap;
use crate::time::{Duration, Timestamp};
use crate::traits::{Next, Reset};
use crate::window::{admitted, expired, in_order, within, Boundary, Observation, TimeWindow};

verus! {

/// The mean distance of the values in the window from their mean. The mean
/// comes from a running sum; the distances are added up by a scan of the
/// window on every call.
pub struct MeanAbsoluteDeviation<V> {
    window: TimeWindow<V>,
    sum: V,
}

/// What a [`MeanAbsoluteDeviation`] holds.
pub struct MadState<V> {
    pub duration: Duration,
    pub window: Seq<Observation<V>>,
    pub sum: V,
}

impl<V> View for MeanAbsoluteDeviation<V> {
    type V = MadState<V>;

    closed spec fn view(&self) -> MadState<V> {
        MadState { duration: self.window.spec_duration(), window: self.window@, sum: self.sum }
    }
}

/// `to` is `from + |value - mean|` in `V`'s arithmetic.
pub open spec fn strays<V: Scalar>(from: V, value: V, mean: V, to: V) -> bool {
    exists|off: V, dist: V|
        subtracts(value, mean, off) && #[trigger] measures(off, dist) && adds(from, dist, to)
}

/// `to` is `from` with the distance of every value of `w` from `mean` added
/// to it, oldest first.
pub open spec fn deviates<V: Scalar>(w: Seq<Observation<V>>, mean: V, from: V, to: V) -> bool
    decreases w.len(),
{
    if w.len() == 0 {
        to == from
    } else {
        exists|mid: V|
            deviates(w.drop_last(), mean, from, mid) && #[trigger] strays(
                mid,
                w.last().value,
                mean,
                to,
            )
    }
}

/// `out` is the mean absolute deviation of the values in `w`, whose running
/// sum is `sum`: the distances from `sum / len`, added up from zero, over
/// `len`.
pub open spec fn scatters<V: Scalar>(w: Seq<Observation<V>>, sum: V, out: V) -> bool {
    exists|mean: V, nothing: V, total: V|
        averages(sum, w.len(), mean) && zeroes(nothing) && #[trigger] deviates(
            w,
            mean,
            nothing,
            total,
        ) && averages(total, w.len(), out)
}

/// With deterministic arithmetic, adding up the distances from a mean has one result.
pub proof fn deviates_once<V: Scalar>(
    w: Seq<Observation<V>>,
    mean: V,
    from: V,
    a: V,
    b: V,
)
    requires
        deterministic::<V>(),
        deviates(w, mean, from, a),
        deviates(w, mean, from, b),
    ensures
        a == b,
    decreases w.len(),
{
    if w.len() > 0 {
        let x = w.last().value;
        let ma = choose|m: V| deviates(w.drop_last(), mean, from, m) && strays(m, x, mean, a);
        let mb = choose|m: V| deviates(w.drop_last(), mean, from, m) && strays(m, x, mean, b);
        deviates_once(w.drop_last(), mean, from, ma, mb);
    }
}

/// With deterministic arithmetic, a window and its running sum have one mean
/// absolute deviation.
pub proof fn scatters_once<V: Scalar>(w: Seq<Observation<V>>, sum: V, a: V, b: V)
    requires
        deterministic::<V>(),
        scatters(w, sum, a),
        scatters(w, sum, b),
    ensures
        a == b,
{
    let (ma, za, ta) = choose|m: V, z: V, t: V|
        averages(sum, w.len(), m) && zeroes(z) && deviates(w, m, z, t) && averages(t, w.len(), a);
    let (mb, zb, tb) = choose|m: V, z: V, t: V|
        averages(sum, w.len(), m) && zeroes(z) && deviates(w, m, z, t) && averages(t, w.len(), b);
    averages_once(sum, w.len(), ma, mb);
    deviates_once(w, ma, za, ta, tb);
    averages_once(ta, w.len(), a, b);
}

/// The mean absolute deviation of the values in the window, given their
/// running sum.
pub fn scatter<V: Scalar>(w: &TimeWindow<V>, sum: V) -> (out: V)
    ensures
        scatters(w@, sum, out),
{
    let mean = average(sum, w.len());
    let nothing = zero::<V>();
    let mut acc = nothing;
    let mut i: usize = 0;
    while i < w.len()
        invariant
            i <= w@.len(),
            deviates(w@.take(i as int), mean, nothing, acc),
        decreases w@.len() - i,
    {
        let ghost before = acc;
        let off = minus(w.get(i).value, mean);
        let dist = magnitude(off);
        acc = plus(acc, dist);
        proof {
            assert(w@.take(i + 1).drop_last() =~= w@.take(i as int));
            assert(w@.take(i + 1).last() == w@[i as int]);
            assert(strays(before, w@[i as int].value, mean, acc));
        }
        i += 1;
    }
    proof {
        assert(w@.take(w@.len() as int) =~= w@);
    }
    average(acc, w.len())
}

impl<V: Scalar> MeanAbsoluteDeviation<V> {
    /// `s` is a state that `new(duration)` may return.
    pub open spec fn starts(duration: Duration, s: MadState<V>) -> bool {
        &&& s.duration == duration
        &&& duration@ > 0
        &&& s.window == Seq::<Observation<V>>::empty()
        &&& zeroes(s.sum)
    }

    /// `post` is a state that `reset` may leave behind in state `pre`.
    pub open spec fn restarts(pre: MadState<V>, post: MadState<V>) -> bool {
        &&& post.duration == pre.duration
        &&& post.window == Seq::<Observation<V>>::empty()
        &&& zeroes(post.sum)
    }

    /// In state `pre`, `next((time, value))` may leave the state `post` and
    /// return `out`: the window takes the observation in, the running sum
    /// loses what left the window and gains the value, and the reading is the
    /// mean absolute deviation of the window.
    pub open spec fn steps(
        pre: MadState<V>,
        time: Timestamp,
        value: V,
        post: MadState<V>,
        out: V,
    ) -> bool {
        &&& post.duration == pre.duration
        &&& post.window == admitted(pre.window, time, value, pre.duration, Boundary::Inclusive)
        &&& rolls(
            expired(pre.window, time, pre.duration, Boundary::Inclusive),
            pre.sum,
            value,
            post.sum,
        )
        &&& scatters(post.window, post.sum, out)
    }

    /// The step relation as a value, for the laws that speak of whole runs.
    pub open spec fn stepper() -> spec_fn(MadState<V>, Timestamp, V, MadState<V>, V) -> bool {
        |s: MadState<V>, t: Timestamp, v: V, p: MadState<V>, o: V| Self::steps(s, t, v, p, o)
    }

    /// With deterministic arithmetic, a state and an input leave one next
    /// state and one reading.
    pub proof fn steps_once(
        s: MadState<V>,
        t: Timestamp,
        v: V,
        p: MadState<V>,
        o: V,
        q: MadState<V>,
        u: V,
    )
        requires
            deterministic::<V>(),
            Self::steps(s, t, v, p, o),
            Self::steps(s, t, v, q, u),
        ensures
            p == q,
            o == u,
    {
        rolls_once(expired(s.window, t, s.duration, Boundary::Inclusive), s.sum, v, p.sum, q.sum);
        scatters_once(p.window, p.sum, o, u);
    }

    /// Idempotence of reset: with deterministic arithmetic, an instance that
    /// was fed `inputs` from new, then reset, then fed `inputs` again,
    /// returns the same readings both times.
    pub proof fn reset_replays(
        duration: Duration,
        inputs: Seq<Observation<V>>,
        first: Seq<MadState<V>>,
        told: Seq<V>,
        again: Seq<MadState<V>>,
        retold: Seq<V>,
    )
        requires
            deterministic::<V>(),
            Self::starts(duration, first[0]),
            runs(Self::stepper(), first, inputs, told),
            Self::restarts(first.last(), again[0]),
            runs(Self::stepper(), again, inputs, retold),
        ensures
            retold == told,
    {
        let step = Self::stepper();
        let kept = |s: MadState<V>| s.duration == duration;
        assert(preserved(step, kept));
        run_keeps(step, kept, inputs, first, told, inputs.len() as int);
        assert(again[0] == first[0]);
        assert(functional(step)) by {
            assert forall|
                s: MadState<V>,
                t: Timestamp,
                v: V,
                p: MadState<V>,
                o: V,
                q: MadState<V>,
                u: V,
            |
                #![trigger step(s, t, v, p, o), step(s, t, v, q, u)]
                step(s, t, v, p, o) && step(s, t, v, q, u) implies p == q && o == u by {
                Self::steps_once(s, t, v, p, o, q, u);
            }
        }
        same_start_same_run(step, inputs, first, told, again, retold);
    }

    /// Boundedness: fed inputs whose timestamps never go back, a new
    /// instance holds its observations in order and holds none that is
    /// as old as, or older than, its duration relative to the most recent input.
    pub proof fn window_stays_bounded(
        duration: Duration,
        inputs: Seq<Observation<V>>,
        states: Seq<MadState<V>>,
        outs: Seq<V>,
    )
        requires
            Self::starts(duration, states[0]),
            runs(Self::stepper(), states, inputs, outs),
            in_order(inputs),
            inputs.len() > 0,
        ensures
            in_order(states.last().window),
            within(states.last().window, inputs.last().time, duration, Boundary::Inclusive),
    {
        let step = Self::stepper();
        let window_of = |s: MadState<V>| s.window;
        let span_of = |s: MadState<V>| s.duration;
        assert(windowed(step, window_of, span_of, Boundary::Inclusive));
        run_stays_bounded(step, window_of, span_of, Boundary::Inclusive, inputs, states, outs);
    }

    /// With exact sums, the reading after any inputs is the mean absolute
    /// deviation of the window around the mean that the sum of its values
    /// gives.
    pub proof fn reading_is_the_deviation(
        duration: Duration,
        inputs: Seq<Observation<V>>,
        states: Seq<MadState<V>>,
        outs: Seq<V>,
    )
        requires
            exact_sums::<V>(),
            Self::starts(duration, states[0]),
            runs(Self::stepper(), states, inputs, outs),
            inputs.len() > 0,
        ensures
            exists|total: V| #[trigger]
                sums_to(states.last().window, total) && scatters(
                    states.last().window,
                    total,
                    outs.last(),
                ),
    {
        let step = Self::stepper();
        let kept = |s: MadState<V>| sums_to(s.window, s.sum);
        assert(kept(states[0])) by {
            assert(gathers(states[0].window, states[0].sum, states[0].sum));
        }
        assert(preserved(step, kept)) by {
            assert forall|s: MadState<V>, t: Timestamp, v: V, p: MadState<V>, o: V| #[trigger]
                step(s, t, v, p, o) && kept(s) implies kept(p) by {
                rolled_sum_is_the_sum(s.window, t, v, s.duration, Boundary::Inclusive, s.sum, p.sum);
            }
        }
        run_keeps(step, kept, inputs, states, outs, inputs.len() as int);
        let n = inputs.len() - 1;
        assert(step(states[n], inputs[n].time, inputs[n].value, states[n + 1], outs[n]));
        let last = states.last();
        assert(sums_to(last.window, last.sum) && scatters(last.window, last.sum, outs.last()));
    }

    /// A new indicator over `duration`. A duration that is not positive is
    /// refused.
    pub fn new(duration: Duration) -> (r: Result<Self, TaError>)
        ensures
            duration@ > 0 <==> r is Ok,
            r is Err ==> r == Err::<Self, TaError>(TaError::InvalidParameter),
            r is Ok ==> Self::starts(duration, r.unwrap()@),
    {
        match TimeWindow::new(duration) {
            Ok(window) => Ok(MeanAbsoluteDeviation { window, sum: zero() }),
            Err(e) => Err(e),
        }
    }
}

impl<V: Scalar> MeanAbsoluteDeviation<V> {
    /// The name of the indicator and, in brackets, its duration in debug form.
    pub fn label(&self) -> (r: String)
        ensures
            r@ == "MAD("@ + self@.duration.debug_text() + ")"@,
    {
        wrap("MAD(", &self.window.duration().debug_label(), ")")
    }
}

impl<V: Scalar> Default for MeanAbsoluteDeviation<V> {
    /// An instance over fourteen days.
    fn default() -> (r: Self)
        ensures
            MeanAbsoluteDeviation::<V>::starts(Duration::of_seconds(1_209_600), r@),
    {
        match Self::new(Duration::days(14)) {
            Ok(fresh) => fresh,
            Err(_) => unreached(),
        }
    }
}

impl<V: Scalar> Next<V> for MeanAbsoluteDeviation<V> {
    type Output = V;

    fn next(&mut self, input: (Timestamp, V)) -> (out: V)
        ensures
            Self::steps(old(self)@, input.0, input.1, final(self)@, out),
    {
        let (time, value) = input;
        let gone = self.window.evict_older_than(time, Boundary::Inclusive);
        self.window.push(time, value);
        self.sum = roll(self.sum, &gone, value);
        scatter(&self.window, self.sum)
    }
}

impl<V: Scalar> Reset for MeanAbsoluteDeviation<V> {
    fn reset(&mut self)
        ensures
            Self::restarts(old(self)@, final(self)@),
    {
        self.sum = zero();
        self.window.clear();
    }
}

} // verus!

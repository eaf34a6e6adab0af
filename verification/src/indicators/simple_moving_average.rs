use vstd::prelude::*;
use crate::error::TaError;
use crate::laws::{
    functional, preserved, run_keeps, run_stays_bounded, runs, same_start_same_run, windowed,
};
use crate::running::{
    average, averages, averages_once, drain, drained_sum_is_the_rest, drains, drains_once,
    exact_sums, gathers, means, sums_to,
};
use crate::scalar::{adds, deterministic, plus, zero, zeroes, Scalar};
use crate::text::wrap;
use crate::time::{Duration, Timestamp};
use crate::traits::{Next, Reset};
use crate::window::{
    admitted, expired, in_order, stale_prefix, stale_prefix_is_longest, within, Boundary,
    Observation, TimeWindow,
};

verus! {

/// The mean of the values in the window, kept through a running sum.
pub struct SimpleMovingAverage<V> {
    window: TimeWindow<V>,
    sum: V,
}

/// What a [`SimpleMovingAverage`] holds.
pub struct SmaState<V> {
    pub duration: Duration,
    pub window: Seq<Observation<V>>,
    pub sum: V,
}

impl<V> View for SimpleMovingAverage<V> {
    type V = SmaState<V>;

    closed spec fn view(&self) -> SmaState<V> {
        SmaState { duration: self.window.spec_duration(), window: self.window@, sum: self.sum }
    }
}

/// `to` is the running sum `from` after the values of `gone` have been
/// subtracted from it, oldest first, and `value` has been added.
pub open spec fn rolls<V: Scalar>(gone: Seq<Observation<V>>, from: V, value: V, to: V) -> bool {
    exists|rest: V| drains(gone, from, rest) && #[trigger] adds(rest, value, to)
}

/// With deterministic arithmetic, moving a running sum on has one result.
pub proof fn rolls_once<V: Scalar>(gone: Seq<Observation<V>>, from: V, value: V, a: V, b: V)
    requires
        deterministic::<V>(),
        rolls(gone, from, value, a),
        rolls(gone, from, value, b),
    ensures
        a == b,
{
    let ra = choose|r: V| drains(gone, from, r) && adds(r, value, a);
    let rb = choose|r: V| drains(gone, from, r) && adds(r, value, b);
    drains_once(gone, from, ra, rb);
}

/// With exact sums, a running sum that was the sum of the window before an
/// observation came in is the sum of the window after it.
pub proof fn rolled_sum_is_the_sum<V: Scalar>(
    w: Seq<Observation<V>>,
    now: Timestamp,
    value: V,
    span: Duration,
    edge: Boundary,
    from: V,
    to: V,
)
    requires
        exact_sums::<V>(),
        sums_to(w, from),
        rolls(expired(w, now, span, edge), from, value, to),
    ensures
        sums_to(admitted(w, now, value, span, edge), to),
{
    stale_prefix_is_longest(w, now, span, edge);
    let k = stale_prefix(w, now, span, edge) as int;
    let nothing = choose|z: V| zeroes(z) && gathers(w, z, from);
    let rest = choose|r: V| drains(expired(w, now, span, edge), from, r) && adds(r, value, to);
    drained_sum_is_the_rest(w, k, nothing, from, rest);
    let next = admitted(w, now, value, span, edge);
    assert(next.drop_last() =~= w.skip(k));
    assert(adds(rest, next.last().value, to));
    assert(gathers(next, nothing, to));
}

/// Moves a running sum on by one observation: what left the window is
/// subtracted, the new value is added.
pub fn roll<V: Scalar>(sum: V, gone: &Vec<Observation<V>>, value: V) -> (r: V)
    ensures
        rolls(gone@, sum, value, r),
{
    let rest = drain(sum, gone);
    plus(rest, value)
}

impl<V: Scalar> SimpleMovingAverage<V> {
    /// `s` is a state that `new(duration)` may return.
    pub open spec fn starts(duration: Duration, s: SmaState<V>) -> bool {
        &&& s.duration == duration
        &&& duration@ > 0
        &&& s.window == Seq::<Observation<V>>::empty()
        &&& zeroes(s.sum)
    }

    /// `post` is a state that `reset` may leave behind in state `pre`.
    pub open spec fn restarts(pre: SmaState<V>, post: SmaState<V>) -> bool {
        &&& post.duration == pre.duration
        &&& post.window == Seq::<Observation<V>>::empty()
        &&& zeroes(post.sum)
    }

    /// In state `pre`, `next((time, value))` may leave the state `post` and
    /// return `out`: the window takes the observation in, the running sum
    /// loses what left the window and gains the value, and the reading is the
    /// sum over the number of observations in the window.
    pub open spec fn steps(
        pre: SmaState<V>,
        time: Timestamp,
        value: V,
        post: SmaState<V>,
        out: V,
    ) -> bool {
        &&& post.duration == pre.duration
        &&& post.window == admitted(pre.window, time, value, pre.duration, Boundary::Inclusive)
        &&& rolls(
            expired(pre.window, time, pre.duration, Boundary::Inclusive),
            pre.sum,
            value,
            post.sum,
        )
        &&& averages(post.sum, post.window.len(), out)
    }

    /// The step relation as a value, for the laws that speak of whole runs.
    pub open spec fn stepper() -> spec_fn(SmaState<V>, Timestamp, V, SmaState<V>, V) -> bool {
        |s: SmaState<V>, t: Timestamp, v: V, p: SmaState<V>, o: V| Self::steps(s, t, v, p, o)
    }

    /// With deterministic arithmetic, a state and an input leave one next
    /// state and one reading.
    pub proof fn steps_once(
        s: SmaState<V>,
        t: Timestamp,
        v: V,
        p: SmaState<V>,
        o: V,
        q: SmaState<V>,
        u: V,
    )
        requires
            deterministic::<V>(),
            Self::steps(s, t, v, p, o),
            Self::steps(s, t, v, q, u),
        ensures
            p == q,
            o == u,
    {
        rolls_once(expired(s.window, t, s.duration, Boundary::Inclusive), s.sum, v, p.sum, q.sum);
        averages_once(p.sum, p.window.len(), o, u);
    }

    /// Idempotence of reset: with deterministic arithmetic, an instance that
    /// was fed `inputs` from new, then reset, then fed `inputs` again,
    /// returns the same readings both times.
    pub proof fn reset_replays(
        duration: Duration,
        inputs: Seq<Observation<V>>,
        first: Seq<SmaState<V>>,
        told: Seq<V>,
        again: Seq<SmaState<V>>,
        retold: Seq<V>,
    )
        requires
            deterministic::<V>(),
            Self::starts(duration, first[0]),
            runs(Self::stepper(), first, inputs, told),
            Self::restarts(first.last(), again[0]),
            runs(Self::stepper(), again, inputs, retold),
        ensures
            retold == told,
    {
        let step = Self::stepper();
        let kept = |s: SmaState<V>| s.duration == duration;
        assert(preserved(step, kept));
        run_keeps(step, kept, inputs, first, told, inputs.len() as int);
        assert(again[0] == first[0]);
        assert(functional(step)) by {
            assert forall|
                s: SmaState<V>,
                t: Timestamp,
                v: V,
                p: SmaState<V>,
                o: V,
                q: SmaState<V>,
                u: V,
            |
                #![trigger step(s, t, v, p, o), step(s, t, v, q, u)]
                step(s, t, v, p, o) && step(s, t, v, q, u) implies p == q && o == u by {
                Self::steps_once(s, t, v, p, o, q, u);
            }
        }
        same_start_same_run(step, inputs, first, told, again, retold);
    }

    /// Boundedness: fed inputs whose timestamps never go back, a new
    /// instance holds its observations in order and holds none that is as
    /// old as its duration, or older, relative to the most recent input.
    pub proof fn window_stays_bounded(
        duration: Duration,
        inputs: Seq<Observation<V>>,
        states: Seq<SmaState<V>>,
        outs: Seq<V>,
    )
        requires
            Self::starts(duration, states[0]),
            runs(Self::stepper(), states, inputs, outs),
            in_order(inputs),
            inputs.len() > 0,
        ensures
            in_order(states.last().window),
            within(states.last().window, inputs.last().time, duration, Boundary::Inclusive),
    {
        let step = Self::stepper();
        let window_of = |s: SmaState<V>| s.window;
        let span_of = |s: SmaState<V>| s.duration;
        assert(windowed(step, window_of, span_of, Boundary::Inclusive));
        run_stays_bounded(step, window_of, span_of, Boundary::Inclusive, inputs, states, outs);
    }

    /// With exact sums, the reading after any inputs is the plain mean of
    /// the window: the sum of its values over their number.
    pub proof fn reading_is_the_mean(
        duration: Duration,
        inputs: Seq<Observation<V>>,
        states: Seq<SmaState<V>>,
        outs: Seq<V>,
    )
        requires
            exact_sums::<V>(),
            Self::starts(duration, states[0]),
            runs(Self::stepper(), states, inputs, outs),
            inputs.len() > 0,
        ensures
            means(states.last().window, outs.last()),
    {
        let step = Self::stepper();
        let kept = |s: SmaState<V>| sums_to(s.window, s.sum);
        assert(kept(states[0])) by {
            assert(gathers(states[0].window, states[0].sum, states[0].sum));
        }
        assert(preserved(step, kept)) by {
            assert forall|s: SmaState<V>, t: Timestamp, v: V, p: SmaState<V>, o: V| #[trigger]
                step(s, t, v, p, o) && kept(s) implies kept(p) by {
                rolled_sum_is_the_sum(s.window, t, v, s.duration, Boundary::Inclusive, s.sum, p.sum);
            }
        }
        run_keeps(step, kept, inputs, states, outs, inputs.len() as int);
        let n = inputs.len() - 1;
        assert(step(states[n], inputs[n].time, inputs[n].value, states[n + 1], outs[n]));
        let last = states.last();
        let nothing = choose|z: V| zeroes(z) && gathers(last.window, z, last.sum);
        assert(zeroes(nothing) && gathers(last.window, nothing, last.sum) && averages(
            last.sum,
            last.window.len(),
            outs.last(),
        ));
    }

    /// A new average over `duration`. A duration that is not positive is
    /// refused.
    pub fn new(duration: Duration) -> (r: Result<Self, TaError>)
        ensures
            duration@ > 0 <==> r is Ok,
            r is Err ==> r == Err::<Self, TaError>(TaError::InvalidParameter),
            r is Ok ==> Self::starts(duration, r.unwrap()@),
    {
        match TimeWindow::new(duration) {
            Ok(window) => Ok(SimpleMovingAverage { window, sum: zero() }),
            Err(e) => Err(e),
        }
    }
}

impl<V: Scalar> SimpleMovingAverage<V> {
    /// The name of the indicator and, in brackets, its duration in debug form.
    pub fn label(&self) -> (r: String)
        ensures
            r@ == "SMA("@ + self@.duration.debug_text() + ")"@,
    {
        wrap("SMA(", &self.window.duration().debug_label(), ")")
    }
}

impl<V: Scalar> Default for SimpleMovingAverage<V> {
    /// An instance over fourteen days.
    fn default() -> (r: Self)
        ensures
            SimpleMovingAverage::<V>::starts(Duration::of_seconds(1_209_600), r@),
    {
        match Self::new(Duration::days(14)) {
            Ok(fresh) => fresh,
            Err(_) => unreached(),
        }
    }
}

impl<V: Scalar> Next<V> for SimpleMovingAverage<V> {
    type Output = V;

    fn next(&mut self, input: (Timestamp, V)) -> (out: V)
        ensures
            Self::steps(old(self)@, input.0, input.1, final(self)@, out),
    {
        let (time, value) = input;
        let gone = self.window.evict_older_than(time, Boundary::Inclusive);
        self.window.push(time, value);
        self.sum = roll(self.sum, &gone, value);
        average(self.sum, self.window.len())
    }
}

impl<V: Scalar> Reset for SimpleMovingAverage<V> {
    fn reset(&mut self)
        ensures
            Self::restarts(old(self)@, final(self)@),
    {
        self.window.clear();
        self.sum = zero();
    }
}

} // verus!

use vstd::prelude::*;
use crate::error::TaError;
use crate::laws::{
    functional, preserved, run_keeps, run_stays_bounded, runs, same_start_same_run, windowed,
};
use crate::scalar::{
    adds, counts, deterministic, divides, from_count, minus, multiplies, over, plus, subtracts,
    times, zero, zeroes, Scalar,
};
use crate::text::{decimal, decimal_label, wrap};
use crate::time::{Duration, Timestamp};
use crate::traits::{Next, Reset};
use crate::window::{admitted, in_order, within, Boundary, Observation, TimeWindow};

verus! {

/// An exponential moving average. The weight of the newest value is
/// `k = 2 / (days + 1)`, with `days` the whole days in the duration.
///
/// The window bounds what counts as recent; the average itself is computed
/// from the previous average alone.
pub struct ExponentialMovingAverage<V> {
    window: TimeWindow<V>,
    k: V,
    current: V,
    is_new: bool,
}

/// What an [`ExponentialMovingAverage`] holds.
pub struct EmaState<V> {
    pub duration: Duration,
    pub window: Seq<Observation<V>>,
    pub k: V,
    pub current: V,
    pub is_new: bool,
}

impl<V> View for ExponentialMovingAverage<V> {
    type V = EmaState<V>;

    closed spec fn view(&self) -> EmaState<V> {
        EmaState {
            duration: self.window.spec_duration(),
            window: self.window@,
            k: self.k,
            current: self.current,
            is_new: self.is_new,
        }
    }
}

/// `k` is `2 / (days + 1)` in `V`'s arithmetic.
pub open spec fn smooths<V: Scalar>(days: int, k: V) -> bool {
    exists|two: V, d: V, one: V, denom: V|
        counts(2, two) && counts(days, d) && counts(1, one) && #[trigger] adds(d, one, denom)
            && #[trigger] divides(two, denom, k)
}

/// `r` is `k * value + (1 - k) * current` in `V`'s arithmetic.
pub open spec fn blends<V: Scalar>(k: V, value: V, current: V, r: V) -> bool {
    exists|a: V, one: V, w: V, b: V|
        multiplies(k, value, a) && counts(1, one) && #[trigger] subtracts(one, k, w)
            && multiplies(w, current, b) && #[trigger] adds(a, b, r)
}

/// With deterministic arithmetic, a duration has one smoothing weight.
pub proof fn smooths_once<V: Scalar>(days: int, a: V, b: V)
    requires
        deterministic::<V>(),
        smooths(days, a),
        smooths(days, b),
    ensures
        a == b,
{
}

/// With deterministic arithmetic, a blend has one result.
pub proof fn blends_once<V: Scalar>(k: V, value: V, current: V, a: V, b: V)
    requires
        deterministic::<V>(),
        blends(k, value, current, a),
        blends(k, value, current, b),
    ensures
        a == b,
{
}

fn smoothing<V: Scalar>(days: u64) -> (k: V)
    ensures
        smooths(days as int, k),
{
    let two = from_count::<V>(2);
    let d = from_count::<V>(days);
    let one = from_count::<V>(1);
    let denom = plus(d, one);
    over(two, denom)
}

fn blend<V: Scalar>(k: V, value: V, current: V) -> (r: V)
    ensures
        blends(k, value, current, r),
{
    let a = times(k, value);
    let one = from_count::<V>(1);
    let w = minus(one, k);
    let b = times(w, current);
    plus(a, b)
}

impl<V: Scalar> ExponentialMovingAverage<V> {
    /// `s` is a state that `new(duration)` may return.
    pub open spec fn starts(duration: Duration, s: EmaState<V>) -> bool {
        &&& s.duration == duration
        &&& duration@ > 0
        &&& s.window == Seq::<Observation<V>>::empty()
        &&& smooths(duration.spec_num_days(), s.k)
        &&& zeroes(s.current)
        &&& s.is_new
    }

    /// `post` is a state that `reset` may leave behind in state `pre`.
    pub open spec fn restarts(pre: EmaState<V>, post: EmaState<V>) -> bool {
        &&& post.duration == pre.duration
        &&& post.k == pre.k
        &&& post.window == Seq::<Observation<V>>::empty()
        &&& zeroes(post.current)
        &&& post.is_new
    }

    /// In state `pre`, `next((time, value))` may leave the state `post` and
    /// return `out`: the window takes the observation in, and the average is
    /// the value itself the first time and the blend of the value and the
    /// previous average after that.
    pub open spec fn steps(
        pre: EmaState<V>,
        time: Timestamp,
        value: V,
        post: EmaState<V>,
        out: V,
    ) -> bool {
        &&& post.duration == pre.duration
        &&& post.k == pre.k
        &&& post.window == admitted(pre.window, time, value, pre.duration, Boundary::Inclusive)
        &&& !post.is_new
        &&& if pre.is_new {
            post.current == value
        } else {
            blends(pre.k, value, pre.current, post.current)
        }
        &&& out == post.current
    }

    /// The step relation as a value, for the laws that speak of whole runs.
    pub open spec fn stepper() -> spec_fn(EmaState<V>, Timestamp, V, EmaState<V>, V) -> bool {
        |s: EmaState<V>, t: Timestamp, v: V, p: EmaState<V>, o: V| Self::steps(s, t, v, p, o)
    }

    /// With deterministic arithmetic, a state and an input leave one next
    /// state and one reading.
    pub proof fn steps_once(
        s: EmaState<V>,
        t: Timestamp,
        v: V,
        p: EmaState<V>,
        o: V,
        q: EmaState<V>,
        u: V,
    )
        requires
            deterministic::<V>(),
            Self::steps(s, t, v, p, o),
            Self::steps(s, t, v, q, u),
        ensures
            p == q,
            o == u,
    {
        if !s.is_new {
            blends_once(s.k, v, s.current, p.current, q.current);
        }
    }

    /// Idempotence of reset: with deterministic arithmetic, an instance that
    /// was fed `inputs` from new, then reset, then fed `inputs` again,
    /// returns the same readings both times.
    pub proof fn reset_replays(
        duration: Duration,
        inputs: Seq<Observation<V>>,
        first: Seq<EmaState<V>>,
        told: Seq<V>,
        again: Seq<EmaState<V>>,
        retold: Seq<V>,
    )
        requires
            deterministic::<V>(),
            Self::starts(duration, first[0]),
            runs(Self::stepper(), first, inputs, told),
            Self::restarts(first.last(), again[0]),
            runs(Self::stepper(), again, inputs, retold),
        ensures
            retold == told,
    {
        let step = Self::stepper();
        let kept = |s: EmaState<V>| s.duration == duration && s.k == first[0].k;
        assert(preserved(step, kept));
        run_keeps(step, kept, inputs, first, told, inputs.len() as int);
        assert(again[0] == first[0]);
        assert(functional(step)) by {
            assert forall|
                s: EmaState<V>,
                t: Timestamp,
                v: V,
                p: EmaState<V>,
                o: V,
                q: EmaState<V>,
                u: V,
            |
                #![trigger step(s, t, v, p, o), step(s, t, v, q, u)]
                step(s, t, v, p, o) && step(s, t, v, q, u) implies p == q && o == u by {
                Self::steps_once(s, t, v, p, o, q, u);
            }
        }
        same_start_same_run(step, inputs, first, told, again, retold);
    }

    /// Boundedness: fed inputs whose timestamps never go back, a new
    /// instance holds its observations in order and holds none that is
    /// as old as, or older than, its duration relative to the most recent input.
    pub proof fn window_stays_bounded(
        duration: Duration,
        inputs: Seq<Observation<V>>,
        states: Seq<EmaState<V>>,
        outs: Seq<V>,
    )
        requires
            Self::starts(duration, states[0]),
            runs(Self::stepper(), states, inputs, outs),
            in_order(inputs),
            inputs.len() > 0,
        ensures
            in_order(states.last().window),
            within(states.last().window, inputs.last().time, duration, Boundary::Inclusive),
    {
        let step = Self::stepper();
        let window_of = |s: EmaState<V>| s.window;
        let span_of = |s: EmaState<V>| s.duration;
        assert(windowed(step, window_of, span_of, Boundary::Inclusive));
        run_stays_bounded(step, window_of, span_of, Boundary::Inclusive, inputs, states, outs);
    }

    /// A new average over `duration`. A duration with no whole day in it is
    /// refused, a duration that is not positive among them.
    pub fn new(duration: Duration) -> (r: Result<Self, TaError>)
        ensures
            duration.spec_num_days() >= 1 <==> r is Ok,
            r is Err ==> r == Err::<Self, TaError>(TaError::InvalidParameter),
            r is Ok ==> Self::starts(duration, r.unwrap()@),
    {
        let days = duration.num_days();
        if days < 1 {
            return Err(TaError::InvalidParameter);
        }
        match TimeWindow::new(duration) {
            Ok(window) => Ok(
                ExponentialMovingAverage {
                    window,
                    k: smoothing(days as u64),
                    current: zero(),
                    is_new: true,
                },
            ),
            Err(e) => Err(e),
        }
    }
}

impl<V: Scalar> ExponentialMovingAverage<V> {
    /// The name of the indicator and, in brackets, the whole days of its duration.
    pub fn label(&self) -> (r: String)
        ensures
            r@ == "EMA("@ + decimal(self@.duration.spec_num_days()) + " days)"@,
    {
        wrap("EMA(", &decimal_label(self.window.duration().num_days()), " days)")
    }
}

impl<V: Scalar> Default for ExponentialMovingAverage<V> {
    /// An instance over fourteen days.
    fn default() -> (r: Self)
        ensures
            ExponentialMovingAverage::<V>::starts(Duration::of_seconds(1_209_600), r@),
    {
        match Self::new(Duration::days(14)) {
            Ok(fresh) => fresh,
            Err(_) => unreached(),
        }
    }
}

impl<V: Scalar> Next<V> for ExponentialMovingAverage<V> {
    type Output = V;

    fn next(&mut self, input: (Timestamp, V)) -> (out: V)
        ensures
            Self::steps(old(self)@, input.0, input.1, final(self)@, out),
    {
        let (time, value) = input;
        let _ = self.window.evict_older_than(time, Boundary::Inclusive);
        self.window.push(time, value);
        if self.is_new {
            self.is_new = false;
            self.current = value;
        } else {
            self.current = blend(self.k, value, self.current);
        }
        self.current
    }
}

impl<V: Scalar> Reset for ExponentialMovingAverage<V> {
    fn reset(&mut self)
        ensures
            Self::restarts(old(self)@, final(self)@),
    {
        self.window.clear();
        self.current = zero();
        self.is_new = true;
    }
}

} // verus!

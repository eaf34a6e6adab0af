use vstd::prelude::*;
use crate::error::TaError;
use crate::laws::{
    functional, preserved, run_keeps, run_stays_bounded, runs, same_start_same_run, windowed,
};
use crate::scalar::{
    counts, deterministic, divides, equates, from_count, minus, multiplies, over, same, subtracts,
    times, zero, zeroes, Scalar,
};
use crate::text::wrap;
use crate::time::{Duration, Timestamp};
use crate::traits::{Next, Reset};
use crate::window::{admitted, in_order, within, Boundary, Observation, TimeWindow};

verus! {

/// The change from the oldest value in the window to the newest, in percent
/// of the oldest.
pub struct RateOfChange<V> {
    window: TimeWindow<V>,
}

/// What a [`RateOfChange`] holds.
pub struct RocState<V> {
    pub duration: Duration,
    pub window: Seq<Observation<V>>,
}

impl<V> View for RateOfChange<V> {
    type V = RocState<V>;

    closed spec fn view(&self) -> RocState<V> {
        RocState { duration: self.window.spec_duration(), window: self.window@ }
    }
}

/// `out` is `(newest - oldest) / oldest * 100` in `V`'s arithmetic.
pub open spec fn grows<V: Scalar>(oldest: V, newest: V, out: V) -> bool {
    exists|diff: V, ratio: V, hundred: V|
        subtracts(newest, oldest, diff) && #[trigger] divides(diff, oldest, ratio) && counts(
            100,
            hundred,
        ) && #[trigger] multiplies(ratio, hundred, out)
}

/// `out` is the change from `oldest` to `newest` in percent of `oldest`, and
/// zero where `oldest` is zero.
pub open spec fn changes<V: Scalar>(oldest: V, newest: V, out: V) -> bool {
    exists|nothing: V, flat: bool|
        zeroes(nothing) && #[trigger] equates(oldest, nothing, flat) && if flat {
            zeroes(out)
        } else {
            grows(oldest, newest, out)
        }
}

/// With deterministic arithmetic, a change has one value.
pub proof fn changes_once<V: Scalar>(
    oldest: V,
    newest: V,
    a: V,
    b: V,
)
    requires
        deterministic::<V>(),
        changes(oldest, newest, a),
        changes(oldest, newest, b),
    ensures
        a == b,
{
}

/// The change from `oldest` to `newest` in percent of `oldest`; zero where
/// `oldest` is zero.
pub fn change<V: Scalar>(oldest: V, newest: V) -> (out: V)
    ensures
        changes(oldest, newest, out),
{
    let nothing = zero::<V>();
    if same(oldest, nothing) {
        nothing
    } else {
        let diff = minus(newest, oldest);
        let ratio = over(diff, oldest);
        let hundred = from_count::<V>(100);
        let out = times(ratio, hundred);
        assert(grows(oldest, newest, out));
        out
    }
}

impl<V: Scalar> RateOfChange<V> {
    /// `s` is a state that `new(duration)` may return.
    pub open spec fn starts(duration: Duration, s: RocState<V>) -> bool {
        &&& s.duration == duration
        &&& duration@ > 0
        &&& s.window == Seq::<Observation<V>>::empty()
    }

    /// `post` is a state that `reset` may leave behind in state `pre`.
    pub open spec fn restarts(pre: RocState<V>, post: RocState<V>) -> bool {
        &&& post.duration == pre.duration
        &&& post.window == Seq::<Observation<V>>::empty()
    }

    /// In state `pre`, `next((time, value))` may leave the state `post` and
    /// return `out`: the window takes the observation in, and the reading is
    /// the change from its oldest value to its newest, or zero while it holds
    /// fewer than two observations.
    pub open spec fn steps(
        pre: RocState<V>,
        time: Timestamp,
        value: V,
        post: RocState<V>,
        out: V,
    ) -> bool {
        &&& post.duration == pre.duration
        &&& post.window == admitted(pre.window, time, value, pre.duration, Boundary::Exclusive)
        &&& if post.window.len() > 1 {
            changes(post.window.first().value, value, out)
        } else {
            zeroes(out)
        }
    }

    /// The step relation as a value, for the laws that speak of whole runs.
    pub open spec fn stepper() -> spec_fn(RocState<V>, Timestamp, V, RocState<V>, V) -> bool {
        |s: RocState<V>, t: Timestamp, v: V, p: RocState<V>, o: V| Self::steps(s, t, v, p, o)
    }

    /// With deterministic arithmetic, a state and an input leave one next
    /// state and one reading.
    pub proof fn steps_once(
        s: RocState<V>,
        t: Timestamp,
        v: V,
        p: RocState<V>,
        o: V,
        q: RocState<V>,
        u: V,
    )
        requires
            deterministic::<V>(),
            Self::steps(s, t, v, p, o),
            Self::steps(s, t, v, q, u),
        ensures
            p == q,
            o == u,
    {
        if p.window.len() > 1 {
            changes_once(p.window.first().value, v, o, u);
        }
    }

    /// Idempotence of reset: with deterministic arithmetic, an instance that
    /// was fed `inputs` from new, then reset, then fed `inputs` again,
    /// returns the same readings both times.
    pub proof fn reset_replays(
        duration: Duration,
        inputs: Seq<Observation<V>>,
        first: Seq<RocState<V>>,
        told: Seq<V>,
        again: Seq<RocState<V>>,
        retold: Seq<V>,
    )
        requires
            deterministic::<V>(),
            Self::starts(duration, first[0]),
            runs(Self::stepper(), first, inputs, told),
            Self::restarts(first.last(), again[0]),
            runs(Self::stepper(), again, inputs, retold),
        ensures
            retold == told,
    {
        let step = Self::stepper();
        let kept = |s: RocState<V>| s.duration == duration;
        assert(preserved(step, kept));
        run_keeps(step, kept, inputs, first, told, inputs.len() as int);
        assert(again[0] == first[0]);
        assert(functional(step)) by {
            assert forall|
                s: RocState<V>,
                t: Timestamp,
                v: V,
                p: RocState<V>,
                o: V,
                q: RocState<V>,
                u: V,
            |
                #![trigger step(s, t, v, p, o), step(s, t, v, q, u)]
                step(s, t, v, p, o) && step(s, t, v, q, u) implies p == q && o == u by {
                Self::steps_once(s, t, v, p, o, q, u);
            }
        }
        same_start_same_run(step, inputs, first, told, again, retold);
    }

    /// Boundedness: fed inputs whose timestamps never go back, a new
    /// instance holds its observations in order and holds none that is
    /// older than its duration relative to the most recent input.
    pub proof fn window_stays_bounded(
        duration: Duration,
        inputs: Seq<Observation<V>>,
        states: Seq<RocState<V>>,
        outs: Seq<V>,
    )
        requires
            Self::starts(duration, states[0]),
            runs(Self::stepper(), states, inputs, outs),
            in_order(inputs),
            inputs.len() > 0,
        ensures
            in_order(states.last().window),
            within(states.last().window, inputs.last().time, duration, Boundary::Exclusive),
    {
        let step = Self::stepper();
        let window_of = |s: RocState<V>| s.window;
        let span_of = |s: RocState<V>| s.duration;
        assert(windowed(step, window_of, span_of, Boundary::Exclusive));
        run_stays_bounded(step, window_of, span_of, Boundary::Exclusive, inputs, states, outs);
    }

    /// A new indicator over `duration`. A duration that is not positive is
    /// refused.
    pub fn new(duration: Duration) -> (r: Result<Self, TaError>)
        ensures
            duration@ > 0 <==> r is Ok,
            r is Err ==> r == Err::<Self, TaError>(TaError::InvalidParameter),
            r is Ok ==> Self::starts(duration, r.unwrap()@),
    {
        match TimeWindow::new(duration) {
            Ok(window) => Ok(RateOfChange { window }),
            Err(e) => Err(e),
        }
    }
}

impl<V: Scalar> RateOfChange<V> {
    /// The name of the indicator and, in brackets, its duration in debug form.
    pub fn label(&self) -> (r: String)
        ensures
            r@ == "ROC("@ + self@.duration.debug_text() + ")"@,
    {
        wrap("ROC(", &self.window.duration().debug_label(), ")")
    }
}

impl<V: Scalar> Default for RateOfChange<V> {
    /// An instance over fourteen days.
    fn default() -> (r: Self)
        ensures
            RateOfChange::<V>::starts(Duration::of_seconds(1_209_600), r@),
    {
        match Self::new(Duration::days(14)) {
            Ok(fresh) => fresh,
            Err(_) => unreached(),
        }
    }
}

impl<V: Scalar> Next<V> for RateOfChange<V> {
    type Output = V;

    fn next(&mut self, input: (Timestamp, V)) -> (out: V)
        ensures
            Self::steps(old(self)@, input.0, input.1, final(self)@, out),
    {
        let (time, value) = input;
        let _ = self.window.evict_older_than(time, Boundary::Exclusive);
        self.window.push(time, value);
        let n = self.window.len();
        if n > 1 {
            let oldest = self.window.get(0);
            let newest = self.window.get(n - 1);
            change(oldest.value, newest.value)
        } else {
            zero()
        }
    }
}

impl<V: Scalar> Reset for RateOfChange<V> {
    fn reset(&mut self)
        ensures
            Self::restarts(old(self)@, final(self)@),
    {
        self.window.clear();
    }
}

} // verus!

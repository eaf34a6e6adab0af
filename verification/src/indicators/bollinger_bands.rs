use vstd::prelude::*;
use vstd::string::StringExecFns;
use crate::error::TaError;
use crate::indicators::standard_deviation::{SdState, StandardDeviation};
use crate::laws::{
    functional, preserved, run_keeps, run_stays_bounded, runs, same_start_same_run, windowed,
};
use crate::running::{mean_of, means, means_once};
use crate::scalar::{
    adds, counts, deterministic, from_count, multiplies, names, text, plus, times, Scalar,
};
use crate::time::{Duration, Timestamp};
use crate::traits::{Next, Reset};
use crate::window::{admitted, in_order, within, Boundary, Observation, TimeWindow};

verus! {

/// The upper Bollinger band: the mean of the window plus a multiple of its
/// standard deviation.
pub struct BollingerBands<V> {
    window: TimeWindow<V>,
    multiplier: V,
    sd: StandardDeviation<V>,
}

/// The three bands: the moving average, and the band above and the band
/// below it.
#[derive(Debug, Clone, PartialEq)]
pub struct BollingerBandsOutput<V> {
    pub average: V,
    pub upper: V,
    pub lower: V,
}

/// What a [`BollingerBands`] holds.
pub struct BbState<V> {
    pub duration: Duration,
    pub window: Seq<Observation<V>>,
    pub multiplier: V,
    pub sd: SdState<V>,
}

impl<V> View for BollingerBands<V> {
    type V = BbState<V>;

    closed spec fn view(&self) -> BbState<V> {
        BbState {
            duration: self.window.spec_duration(),
            window: self.window@,
            multiplier: self.multiplier,
            sd: self.sd@,
        }
    }
}

/// `out` is `mean + sd * multiplier` in `V`'s arithmetic.
pub open spec fn lifts<V: Scalar>(mean: V, sd: V, multiplier: V, out: V) -> bool {
    exists|width: V| #[trigger] multiplies(sd, multiplier, width) && adds(mean, width, out)
}

/// The band `multiplier` standard deviations above the mean.
pub fn lift<V: Scalar>(mean: V, sd: V, multiplier: V) -> (out: V)
    ensures
        lifts(mean, sd, multiplier, out),
{
    let width = times(sd, multiplier);
    plus(mean, width)
}

impl<V: Scalar> BollingerBands<V> {
    /// `s` is a state that `new(duration, multiplier)` may return.
    pub open spec fn starts(duration: Duration, multiplier: V, s: BbState<V>) -> bool {
        &&& s.duration == duration
        &&& duration@ > 0
        &&& s.multiplier == multiplier
        &&& s.window == Seq::<Observation<V>>::empty()
        &&& StandardDeviation::<V>::starts(duration, s.sd)
    }

    /// `post` is a state that `reset` may leave behind in state `pre`.
    pub open spec fn restarts(pre: BbState<V>, post: BbState<V>) -> bool {
        &&& post.duration == pre.duration
        &&& post.multiplier == pre.multiplier
        &&& post.window == Seq::<Observation<V>>::empty()
        &&& StandardDeviation::<V>::restarts(pre.sd, post.sd)
    }

    /// In state `pre`, `next((time, value))` may leave the state `post` and
    /// return `out`: the window takes the observation in, the standard
    /// deviation is fed the same observation, and the reading is the plain
    /// mean of the window plus the multiplier times the deviation returned.
    pub open spec fn steps(
        pre: BbState<V>,
        time: Timestamp,
        value: V,
        post: BbState<V>,
        out: V,
    ) -> bool {
        &&& post.duration == pre.duration
        &&& post.multiplier == pre.multiplier
        &&& post.window == admitted(pre.window, time, value, pre.duration, Boundary::Inclusive)
        &&& exists|mean: V, sd: V|
            means(post.window, mean) && StandardDeviation::<V>::steps(
                pre.sd,
                time,
                value,
                post.sd,
                sd,
            ) && #[trigger] lifts(mean, sd, pre.multiplier, out)
    }

    /// The step relation as a value, for the laws that speak of whole runs.
    pub open spec fn stepper() -> spec_fn(BbState<V>, Timestamp, V, BbState<V>, V) -> bool {
        |s: BbState<V>, t: Timestamp, v: V, p: BbState<V>, o: V| Self::steps(s, t, v, p, o)
    }

    /// With deterministic arithmetic, a state and an input leave one next
    /// state and one reading.
    pub proof fn steps_once(
        s: BbState<V>,
        t: Timestamp,
        v: V,
        p: BbState<V>,
        o: V,
        q: BbState<V>,
        u: V,
    )
        requires
            deterministic::<V>(),
            Self::steps(s, t, v, p, o),
            Self::steps(s, t, v, q, u),
        ensures
            p == q,
            o == u,
    {
        let (ma, da) = choose|m: V, d: V|
            means(p.window, m) && StandardDeviation::<V>::steps(s.sd, t, v, p.sd, d) && lifts(
                m,
                d,
                s.multiplier,
                o,
            );
        let (mb, db) = choose|m: V, d: V|
            means(q.window, m) && StandardDeviation::<V>::steps(s.sd, t, v, q.sd, d) && lifts(
                m,
                d,
                s.multiplier,
                u,
            );
        means_once(p.window, ma, mb);
        StandardDeviation::<V>::steps_once(s.sd, t, v, p.sd, da, q.sd, db);
    }

    /// Idempotence of reset: with deterministic arithmetic, an instance that
    /// was fed `inputs` from new, then reset, then fed `inputs` again,
    /// returns the same readings both times.
    pub proof fn reset_replays(
        duration: Duration,
        multiplier: V,
        inputs: Seq<Observation<V>>,
        first: Seq<BbState<V>>,
        told: Seq<V>,
        again: Seq<BbState<V>>,
        retold: Seq<V>,
    )
        requires
            deterministic::<V>(),
            Self::starts(duration, multiplier, first[0]),
            runs(Self::stepper(), first, inputs, told),
            Self::restarts(first.last(), again[0]),
            runs(Self::stepper(), again, inputs, retold),
        ensures
            retold == told,
    {
        let step = Self::stepper();
        let kept = |s: BbState<V>|
            s.duration == duration
            && s.multiplier == multiplier
            && s.sd.duration == duration;
        assert(preserved(step, kept));
        run_keeps(step, kept, inputs, first, told, inputs.len() as int);
        assert(again[0] == first[0]);
        assert(functional(step)) by {
            assert forall|
                s: BbState<V>,
                t: Timestamp,
                v: V,
                p: BbState<V>,
                o: V,
                q: BbState<V>,
                u: V,
            |
                #![trigger step(s, t, v, p, o), step(s, t, v, q, u)]
                step(s, t, v, p, o) && step(s, t, v, q, u) implies p == q && o == u by {
                Self::steps_once(s, t, v, p, o, q, u);
            }
        }
        same_start_same_run(step, inputs, first, told, again, retold);
    }

    /// Boundedness: fed inputs whose timestamps never go back, a new
    /// instance holds its observations in order and holds none that is
    /// as old as, or older than, its duration relative to the most recent input.
    pub proof fn window_stays_bounded(
        duration: Duration,
        multiplier: V,
        inputs: Seq<Observation<V>>,
        states: Seq<BbState<V>>,
        outs: Seq<V>,
    )
        requires
            Self::starts(duration, multiplier, states[0]),
            runs(Self::stepper(), states, inputs, outs),
            in_order(inputs),
            inputs.len() > 0,
        ensures
            in_order(states.last().window),
            within(states.last().window, inputs.last().time, duration, Boundary::Inclusive),
    {
        let step = Self::stepper();
        let window_of = |s: BbState<V>| s.window;
        let span_of = |s: BbState<V>| s.duration;
        assert(windowed(step, window_of, span_of, Boundary::Inclusive));
        run_stays_bounded(step, window_of, span_of, Boundary::Inclusive, inputs, states, outs);
    }

    /// The standard deviation inside sees what the bands see: after any
    /// inputs it has the window and the duration of the bands.
    pub proof fn deviation_shares_the_window(
        duration: Duration,
        multiplier: V,
        inputs: Seq<Observation<V>>,
        states: Seq<BbState<V>>,
        outs: Seq<V>,
    )
        requires
            Self::starts(duration, multiplier, states[0]),
            runs(Self::stepper(), states, inputs, outs),
        ensures
            states.last().sd.window == states.last().window,
            states.last().sd.duration == duration,
            states.last().duration == duration,
            states.last().multiplier == multiplier,
    {
        let step = Self::stepper();
        let kept = |s: BbState<V>|
            s.sd.window == s.window && s.sd.duration == duration && s.duration == duration
                && s.multiplier == multiplier;
        assert(preserved(step, kept)) by {
            assert forall|s: BbState<V>, t: Timestamp, v: V, p: BbState<V>, o: V| #[trigger]
                step(s, t, v, p, o) && kept(s) implies kept(p) by {
                let (m, d) = choose|m: V, d: V|
                    means(p.window, m) && StandardDeviation::<V>::steps(s.sd, t, v, p.sd, d)
                        && lifts(m, d, s.multiplier, o);
            }
        }
        run_keeps(step, kept, inputs, states, outs, inputs.len() as int);
    }

    /// New bands over `duration`, `multiplier` standard deviations wide. A
    /// duration that is not positive is refused; any multiplier is taken.
    pub fn new(duration: Duration, multiplier: V) -> (r: Result<Self, TaError>)
        ensures
            duration@ > 0 <==> r is Ok,
            r is Err ==> r == Err::<Self, TaError>(TaError::InvalidParameter),
            r is Ok ==> Self::starts(duration, multiplier, r.unwrap()@),
    {
        let sd = match StandardDeviation::new(duration) {
            Ok(sd) => sd,
            Err(e) => {
                return Err(e);
            },
        };
        match TimeWindow::new(duration) {
            Ok(window) => Ok(BollingerBands { window, multiplier, sd }),
            Err(e) => Err(e),
        }
    }

    /// The number of standard deviations between the mean and the band.
    pub fn multiplier(&self) -> (r: V)
        ensures
            r == self@.multiplier,
    {
        self.multiplier
    }
}

impl<V: Scalar> BollingerBands<V> {
    /// The name of the indicator and, in brackets, its duration and its multiplier.
    pub fn label(&self) -> (r: String)
        ensures
            exists|m: String| #[trigger]
                names(self@.multiplier, m) && r@ == "BB("@ + self@.duration.text() + ", "@ + m@
                    + ")"@,
    {
        let mut out = String::new();
        out.append("BB(");
        out.append(self.window.duration().label().as_str());
        out.append(", ");
        let m = text(self.multiplier);
        out.append(m.as_str());
        out.append(")");
        proof {
            assert(out@ =~= "BB("@ + self@.duration.text() + ", "@ + m@ + ")"@);
            assert(names(self@.multiplier, m));
        }
        out
    }
}

impl<V: Scalar> Default for BollingerBands<V> {
    /// An instance over fourteen days and two standard deviations.
    fn default() -> (r: Self)
        ensures
            exists|two: V|
                counts(2, two) && BollingerBands::<V>::starts(
                    Duration::of_seconds(1_209_600),
                    two,
                    r@,
                ),
    {
        match Self::new(Duration::days(14), from_count::<V>(2)) {
            Ok(fresh) => fresh,
            Err(_) => unreached(),
        }
    }
}

impl<V: Scalar> Next<V> for BollingerBands<V> {
    type Output = V;

    fn next(&mut self, input: (Timestamp, V)) -> (out: V)
        ensures
            Self::steps(old(self)@, input.0, input.1, final(self)@, out),
    {
        let (time, value) = input;
        let _ = self.window.evict_older_than(time, Boundary::Inclusive);
        self.window.push(time, value);
        let mean = mean_of(&self.window);
        let sd = self.sd.next((time, value));
        let out = lift(mean, sd, self.multiplier);
        proof {
            assert(means(self@.window, mean));
            assert(StandardDeviation::<V>::steps(old(self)@.sd, time, value, self@.sd, sd));
            assert(lifts(mean, sd, old(self)@.multiplier, out));
        }
        out
    }
}

impl<V: Scalar> Reset for BollingerBands<V> {
    fn reset(&mut self)
        ensures
            Self::restarts(old(self)@, final(self)@),
    {
        self.window.clear();
        self.sd.reset();
    }
}

} // verus!

use vstd::prelude::*;
use crate::error::TaError;
use crate::indicators::exponential_moving_average::{
    smooths_once, EmaState, ExponentialMovingAverage,
};
use crate::laws::{
    functional, preserved, run_keeps, run_stays_bounded, runs, same_start_same_run, windowed,
};
use crate::scalar::{
    adds, counts, deterministic, divides, equates, from_count, less, minus, orders, over, plus,
    same, subtracts, zero, zeroes, Scalar,
};
use crate::text::{decimal, decimal_label, wrap};
use crate::time::{Duration, Timestamp};
use crate::traits::{Next, Reset};
use crate::window::{admitted, in_order, within, Boundary, Observation, TimeWindow};

verus! {

/// The relative strength index: the share of the recent movement that went
/// up, between 0 and 100, from an exponential average of the gains and one
/// of the losses.
pub struct RelativeStrengthIndex<V> {
    window: TimeWindow<V>,
    up_ema_indicator: ExponentialMovingAverage<V>,
    down_ema_indicator: ExponentialMovingAverage<V>,
    prev_val: Option<V>,
}

/// What a [`RelativeStrengthIndex`] holds.
pub struct RsiState<V> {
    pub duration: Duration,
    pub window: Seq<Observation<V>>,
    pub up: EmaState<V>,
    pub down: EmaState<V>,
    pub prev: Option<V>,
}

impl<V> View for RelativeStrengthIndex<V> {
    type V = RsiState<V>;

    closed spec fn view(&self) -> RsiState<V> {
        RsiState {
            duration: self.window.spec_duration(),
            window: self.window@,
            up: self.up_ema_indicator@,
            down: self.down_ema_indicator@,
            prev: self.prev_val,
        }
    }
}

/// `gain` and `loss` are the rise and the fall from `prev` to `value`: both
/// zero while there is no previous value, else the difference on the side
/// the value moved to and zero on the other. A value that is not above the
/// previous one counts as a fall.
pub open spec fn moves<V: Scalar>(prev: Option<V>, value: V, gain: V, loss: V) -> bool {
    match prev {
        None => zeroes(gain) && zeroes(loss),
        Some(p) => exists|rose: bool| #[trigger]
            orders(p, value, rose) && if rose {
                subtracts(value, p, gain) && zeroes(loss)
            } else {
                zeroes(gain) && subtracts(p, value, loss)
            },
    }
}

/// `out` is the reading while the average loss is zero: 50 where the average
/// gain is zero too, else 100.
pub open spec fn settles<V: Scalar>(avg_up: V, nothing: V, out: V) -> bool {
    exists|still: bool| #[trigger]
        equates(avg_up, nothing, still) && counts(
            if still {
                50
            } else {
                100
            },
            out,
        )
}

/// `out` is `100 - 100 / (1 + avg_up / avg_down)` in `V`'s arithmetic.
pub open spec fn strengths<V: Scalar>(avg_up: V, avg_down: V, out: V) -> bool {
    exists|rs: V, one: V, denom: V, hundred: V, part: V|
        divides(avg_up, avg_down, rs) && counts(1, one) && #[trigger] adds(one, rs, denom)
            && counts(100, hundred) && divides(hundred, denom, part) && #[trigger] subtracts(
            hundred,
            part,
            out,
        )
}

/// `out` is the reading for the two averages: the fixed readings where the
/// average loss is zero, the ratio formula elsewhere.
pub open spec fn rates<V: Scalar>(avg_up: V, avg_down: V, out: V) -> bool {
    exists|nothing: V, flat: bool|
        zeroes(nothing) && #[trigger] equates(avg_down, nothing, flat) && if flat {
            settles(avg_up, nothing, out)
        } else {
            strengths(avg_up, avg_down, out)
        }
}

/// With deterministic arithmetic, a previous value and a value have one rise
/// and one fall.
pub proof fn moves_once<V: Scalar>(prev: Option<V>, value: V, ga: V, la: V, gb: V, lb: V)
    requires
        deterministic::<V>(),
        moves(prev, value, ga, la),
        moves(prev, value, gb, lb),
    ensures
        ga == gb,
        la == lb,
{
}

/// With deterministic arithmetic, two averages have one reading.
pub proof fn rates_once<V: Scalar>(avg_up: V, avg_down: V, a: V, b: V)
    requires
        deterministic::<V>(),
        rates(avg_up, avg_down, a),
        rates(avg_up, avg_down, b),
    ensures
        a == b,
{
}

/// The rise and the fall from `prev` to `value`.
pub fn movement<V: Scalar>(prev: Option<V>, value: V) -> (r: (V, V))
    ensures
        moves(prev, value, r.0, r.1),
{
    match prev {
        Some(p) => {
            if less(p, value) {
                (minus(value, p), zero())
            } else {
                (zero(), minus(p, value))
            }
        },
        None => (zero(), zero()),
    }
}

/// The index for an average gain and an average loss.
pub fn rating<V: Scalar>(avg_up: V, avg_down: V) -> (out: V)
    ensures
        rates(avg_up, avg_down, out),
{
    let nothing = zero::<V>();
    if same(avg_down, nothing) {
        let out = if same(avg_up, nothing) {
            from_count::<V>(50)
        } else {
            from_count::<V>(100)
        };
        assert(settles(avg_up, nothing, out));
        out
    } else {
        let rs = over(avg_up, avg_down);
        let one = from_count::<V>(1);
        let denom = plus(one, rs);
        let hundred = from_count::<V>(100);
        let part = over(hundred, denom);
        let out = minus(hundred, part);
        assert(strengths(avg_up, avg_down, out));
        out
    }
}

impl<V: Scalar> RelativeStrengthIndex<V> {
    /// `s` is a state that `new(duration)` may return.
    pub open spec fn starts(duration: Duration, s: RsiState<V>) -> bool {
        &&& s.duration == duration
        &&& s.window == Seq::<Observation<V>>::empty()
        &&& ExponentialMovingAverage::<V>::starts(duration, s.up)
        &&& ExponentialMovingAverage::<V>::starts(duration, s.down)
        &&& s.prev is None
    }

    /// `post` is a state that `reset` may leave behind in state `pre`.
    pub open spec fn restarts(pre: RsiState<V>, post: RsiState<V>) -> bool {
        &&& post.duration == pre.duration
        &&& post.window == Seq::<Observation<V>>::empty()
        &&& ExponentialMovingAverage::<V>::restarts(pre.up, post.up)
        &&& ExponentialMovingAverage::<V>::restarts(pre.down, post.down)
        &&& post.prev is None
    }

    /// In state `pre`, `next((time, value))` may leave the state `post` and
    /// return `out`: the window takes the observation in, the value becomes
    /// the previous value, the two averages are fed the rise and the fall at
    /// `time`, and the reading is rated from the averages they return.
    pub open spec fn steps(
        pre: RsiState<V>,
        time: Timestamp,
        value: V,
        post: RsiState<V>,
        out: V,
    ) -> bool {
        &&& post.duration == pre.duration
        &&& post.window == admitted(pre.window, time, value, pre.duration, Boundary::Inclusive)
        &&& post.prev == Some(value)
        &&& exists|gain: V, loss: V| #[trigger]
            moves(pre.prev, value, gain, loss) && ExponentialMovingAverage::<V>::steps(
                pre.up,
                time,
                gain,
                post.up,
                post.up.current,
            ) && ExponentialMovingAverage::<V>::steps(
                pre.down,
                time,
                loss,
                post.down,
                post.down.current,
            )
        &&& rates(post.up.current, post.down.current, out)
    }

    /// The step relation as a value, for the laws that speak of whole runs.
    pub open spec fn stepper() -> spec_fn(RsiState<V>, Timestamp, V, RsiState<V>, V) -> bool {
        |s: RsiState<V>, t: Timestamp, v: V, p: RsiState<V>, o: V| Self::steps(s, t, v, p, o)
    }

    /// With deterministic arithmetic, a state and an input leave one next
    /// state and one reading.
    pub proof fn steps_once(
        s: RsiState<V>,
        t: Timestamp,
        v: V,
        p: RsiState<V>,
        o: V,
        q: RsiState<V>,
        u: V,
    )
        requires
            deterministic::<V>(),
            Self::steps(s, t, v, p, o),
            Self::steps(s, t, v, q, u),
        ensures
            p == q,
            o == u,
    {
        let (ga, la) = choose|gain: V, loss: V|
            moves(s.prev, v, gain, loss) && ExponentialMovingAverage::<V>::steps(
                s.up,
                t,
                gain,
                p.up,
                p.up.current,
            ) && ExponentialMovingAverage::<V>::steps(s.down, t, loss, p.down, p.down.current);
        let (gb, lb) = choose|gain: V, loss: V|
            moves(s.prev, v, gain, loss) && ExponentialMovingAverage::<V>::steps(
                s.up,
                t,
                gain,
                q.up,
                q.up.current,
            ) && ExponentialMovingAverage::<V>::steps(s.down, t, loss, q.down, q.down.current);
        moves_once(s.prev, v, ga, la, gb, lb);
        ExponentialMovingAverage::<V>::steps_once(
            s.up,
            t,
            ga,
            p.up,
            p.up.current,
            q.up,
            q.up.current,
        );
        ExponentialMovingAverage::<V>::steps_once(
            s.down,
            t,
            la,
            p.down,
            p.down.current,
            q.down,
            q.down.current,
        );
        rates_once(p.up.current, p.down.current, o, u);
    }

    /// Idempotence of reset: with deterministic arithmetic, an instance that
    /// was fed `inputs` from new, then reset, then fed `inputs` again,
    /// returns the same readings both times.
    pub proof fn reset_replays(
        duration: Duration,
        inputs: Seq<Observation<V>>,
        first: Seq<RsiState<V>>,
        told: Seq<V>,
        again: Seq<RsiState<V>>,
        retold: Seq<V>,
    )
        requires
            deterministic::<V>(),
            Self::starts(duration, first[0]),
            runs(Self::stepper(), first, inputs, told),
            Self::restarts(first.last(), again[0]),
            runs(Self::stepper(), again, inputs, retold),
        ensures
            retold == told,
    {
        let step = Self::stepper();
        let kept = |s: RsiState<V>|
            s.duration == duration
            && s.up.duration == duration
            && s.up.k == first[0].up.k
            && s.down.duration == duration
            && s.down.k == first[0].down.k;
        assert(preserved(step, kept));
        run_keeps(step, kept, inputs, first, told, inputs.len() as int);
        assert(again[0] == first[0]);
        assert(functional(step)) by {
            assert forall|
                s: RsiState<V>,
                t: Timestamp,
                v: V,
                p: RsiState<V>,
                o: V,
                q: RsiState<V>,
                u: V,
            |
                #![trigger step(s, t, v, p, o), step(s, t, v, q, u)]
                step(s, t, v, p, o) && step(s, t, v, q, u) implies p == q && o == u by {
                Self::steps_once(s, t, v, p, o, q, u);
            }
        }
        same_start_same_run(step, inputs, first, told, again, retold);
    }

    /// Boundedness: fed inputs whose timestamps never go back, a new
    /// instance holds its observations in order and holds none that is
    /// as old as, or older than, its duration relative to the most recent input.
    pub proof fn window_stays_bounded(
        duration: Duration,
        inputs: Seq<Observation<V>>,
        states: Seq<RsiState<V>>,
        outs: Seq<V>,
    )
        requires
            Self::starts(duration, states[0]),
            runs(Self::stepper(), states, inputs, outs),
            in_order(inputs),
            inputs.len() > 0,
        ensures
            in_order(states.last().window),
            within(states.last().window, inputs.last().time, duration, Boundary::Inclusive),
    {
        let step = Self::stepper();
        let window_of = |s: RsiState<V>| s.window;
        let span_of = |s: RsiState<V>| s.duration;
        assert(windowed(step, window_of, span_of, Boundary::Inclusive));
        run_stays_bounded(step, window_of, span_of, Boundary::Inclusive, inputs, states, outs);
    }

    /// `gains` and `losses` are the rise and the fall that the index derives
    /// from each input of a run, each under the input's timestamp.
    pub open spec fn derives(
        states: Seq<RsiState<V>>,
        inputs: Seq<Observation<V>>,
        gains: Seq<Observation<V>>,
        losses: Seq<Observation<V>>,
    ) -> bool {
        &&& gains.len() == inputs.len()
        &&& losses.len() == inputs.len()
        &&& forall|i: int|
            #![trigger gains[i]]
            0 <= i < inputs.len() ==> gains[i].time == inputs[i].time && losses[i].time
                == inputs[i].time && moves(
                states[i].prev,
                inputs[i].value,
                gains[i].value,
                losses[i].value,
            )
    }

    /// Composition: with deterministic arithmetic, two averages of the same
    /// duration that are run on their own, one over the rises and one over
    /// the falls that the index derives from its inputs, return at every
    /// step the averages that the index holds inside after that step.
    pub proof fn averages_match_alone(
        duration: Duration,
        inputs: Seq<Observation<V>>,
        states: Seq<RsiState<V>>,
        outs: Seq<V>,
        gains: Seq<Observation<V>>,
        losses: Seq<Observation<V>>,
        ups: Seq<EmaState<V>>,
        avg_ups: Seq<V>,
        downs: Seq<EmaState<V>>,
        avg_downs: Seq<V>,
    )
        requires
            deterministic::<V>(),
            Self::starts(duration, states[0]),
            runs(Self::stepper(), states, inputs, outs),
            Self::derives(states, inputs, gains, losses),
            ExponentialMovingAverage::<V>::starts(duration, ups[0]),
            runs(ExponentialMovingAverage::<V>::stepper(), ups, gains, avg_ups),
            ExponentialMovingAverage::<V>::starts(duration, downs[0]),
            runs(ExponentialMovingAverage::<V>::stepper(), downs, losses, avg_downs),
        ensures
            forall|i: int|
                0 <= i < inputs.len() ==> #[trigger] avg_ups[i] == states[i + 1].up.current,
            forall|i: int|
                0 <= i < inputs.len() ==> #[trigger] avg_downs[i] == states[i + 1].down.current,
            forall|i: int| 0 <= i <= inputs.len() ==> #[trigger] ups[i] == states[i].up,
            forall|i: int| 0 <= i <= inputs.len() ==> #[trigger] downs[i] == states[i].down,
    {
        let ema = ExponentialMovingAverage::<V>::stepper();
        let inner_ups = Seq::new(states.len(), |i: int| states[i].up);
        let inner_downs = Seq::new(states.len(), |i: int| states[i].down);
        let held_ups = Seq::new(inputs.len(), |i: int| states[i + 1].up.current);
        let held_downs = Seq::new(inputs.len(), |i: int| states[i + 1].down.current);
        assert forall|i: int| 0 <= i < inputs.len() implies ema(
            #[trigger] inner_ups[i],
            gains[i].time,
            gains[i].value,
            inner_ups[i + 1],
            held_ups[i],
        ) && ema(
            inner_downs[i],
            losses[i].time,
            losses[i].value,
            inner_downs[i + 1],
            held_downs[i],
        ) by {
            let s = states[i];
            let p = states[i + 1];
            let t = inputs[i].time;
            let v = inputs[i].value;
            assert(Self::steps(s, t, v, p, outs[i]));
            let (g, l) = choose|gain: V, loss: V|
                moves(s.prev, v, gain, loss) && ExponentialMovingAverage::<V>::steps(
                    s.up,
                    t,
                    gain,
                    p.up,
                    p.up.current,
                ) && ExponentialMovingAverage::<V>::steps(s.down, t, loss, p.down, p.down.current);
            assert(gains[i].time == t);
            moves_once(s.prev, v, g, l, gains[i].value, losses[i].value);
        }
        assert(runs(ema, inner_ups, gains, held_ups));
        assert(runs(ema, inner_downs, losses, held_downs)) by {
            assert forall|i: int| 0 <= i < inputs.len() implies ema(
                #[trigger] inner_downs[i],
                losses[i].time,
                losses[i].value,
                inner_downs[i + 1],
                held_downs[i],
            ) by {
                assert(inner_ups[i] == states[i].up);
            }
        }
        assert(functional(ema)) by {
            assert forall|
                s: EmaState<V>,
                t: Timestamp,
                v: V,
                p: EmaState<V>,
                o: V,
                q: EmaState<V>,
                u: V,
            |
                #![trigger ema(s, t, v, p, o), ema(s, t, v, q, u)]
                ema(s, t, v, p, o) && ema(s, t, v, q, u) implies p == q && o == u by {
                ExponentialMovingAverage::<V>::steps_once(s, t, v, p, o, q, u);
            }
        }
        smooths_once(duration.spec_num_days(), ups[0].k, inner_ups[0].k);
        smooths_once(duration.spec_num_days(), downs[0].k, inner_downs[0].k);
        assert(ups[0] == inner_ups[0]);
        assert(downs[0] == inner_downs[0]);
        same_start_same_run(ema, gains, ups, avg_ups, inner_ups, held_ups);
        same_start_same_run(ema, losses, downs, avg_downs, inner_downs, held_downs);
        assert forall|i: int| 0 <= i <= inputs.len() implies #[trigger] ups[i] == states[i].up by {
            assert(inner_ups[i] == states[i].up);
        }
        assert forall|i: int| 0 <= i <= inputs.len() implies #[trigger] downs[i]
            == states[i].down by {
            assert(inner_downs[i] == states[i].down);
        }
    }

    /// A new index over `duration`. A duration with no whole day in it is
    /// refused, a duration that is not positive among them.
    pub fn new(duration: Duration) -> (r: Result<Self, TaError>)
        ensures
            duration.spec_num_days() >= 1 <==> r is Ok,
            r is Err ==> r == Err::<Self, TaError>(TaError::InvalidParameter),
            r is Ok ==> Self::starts(duration, r.unwrap()@),
    {
        let up = match ExponentialMovingAverage::new(duration) {
            Ok(ema) => ema,
            Err(e) => {
                return Err(e);
            },
        };
        let down = match ExponentialMovingAverage::new(duration) {
            Ok(ema) => ema,
            Err(e) => {
                return Err(e);
            },
        };
        match TimeWindow::new(duration) {
            Ok(window) => Ok(
                RelativeStrengthIndex {
                    window,
                    up_ema_indicator: up,
                    down_ema_indicator: down,
                    prev_val: None,
                },
            ),
            Err(e) => Err(e),
        }
    }
}

impl<V: Scalar> RelativeStrengthIndex<V> {
    /// The name of the indicator and, in brackets, the whole days of its duration.
    pub fn label(&self) -> (r: String)
        ensures
            r@ == "RSI("@ + decimal(self@.duration.spec_num_days()) + " days)"@,
    {
        wrap("RSI(", &decimal_label(self.window.duration().num_days()), " days)")
    }
}

impl<V: Scalar> Default for RelativeStrengthIndex<V> {
    /// An instance over fourteen days.
    fn default() -> (r: Self)
        ensures
            RelativeStrengthIndex::<V>::starts(Duration::of_seconds(1_209_600), r@),
    {
        match Self::new(Duration::days(14)) {
            Ok(fresh) => fresh,
            Err(_) => unreached(),
        }
    }
}

impl<V: Scalar> Next<V> for RelativeStrengthIndex<V> {
    type Output = V;

    fn next(&mut self, input: (Timestamp, V)) -> (out: V)
        ensures
            Self::steps(old(self)@, input.0, input.1, final(self)@, out),
    {
        let (time, value) = input;
        let _ = self.window.evict_older_than(time, Boundary::Inclusive);
        let (gain, loss) = movement(self.prev_val, value);
        self.prev_val = Some(value);
        self.window.push(time, value);
        let avg_up = self.up_ema_indicator.next((time, gain));
        let avg_down = self.down_ema_indicator.next((time, loss));
        rating(avg_up, avg_down)
    }
}

impl<V: Scalar> Reset for RelativeStrengthIndex<V> {
    fn reset(&mut self)
        ensures
            Self::restarts(old(self)@, final(self)@),
    {
        self.window.clear();
        self.prev_val = None;
        self.up_ema_indicator.reset();
        self.down_ema_indicator.reset();
    }
}

} // verus!

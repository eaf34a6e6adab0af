use vstd::prelude::*;
use crate::error::TaError;
use crate::indicators::maximum::overtops;
use crate::laws::{
    functional, preserved, run_keeps, run_stays_bounded, runs, same_start_same_run, windowed,
};
use crate::scalar::{
    deterministic, floors, counts, divides, from_count, lowest, less, minus, multiplies, over,
    subtracts, times, zero, zeroes, Scalar,
};
use crate::text::{decimal, decimal_label, wrap};
use crate::time::{Duration, Timestamp};
use crate::traits::{Next, Reset};
use crate::window::{admitted, in_order, within, Boundary, Observation, TimeWindow};

verus! {

/// The largest fall from a running peak seen in the window, in percent of the peak it
/// is measured from. Nothing is kept between calls but the window: every
/// reading comes from a scan of it.
pub struct MaxDrawdown<V> {
    window: TimeWindow<V>,
}

/// What a [`MaxDrawdown`] holds.
pub struct DrawdownState<V> {
    pub duration: Duration,
    pub window: Seq<Observation<V>>,
}

impl<V> View for MaxDrawdown<V> {
    type V = DrawdownState<V>;

    closed spec fn view(&self) -> DrawdownState<V> {
        DrawdownState { duration: self.window.spec_duration(), window: self.window@ }
    }
}

/// `out` is `(peak - value) / peak` in `V`'s arithmetic.
pub open spec fn falls<V: Scalar>(peak: V, value: V, out: V) -> bool {
    exists|gap: V| #[trigger] subtracts(peak, value, gap) && divides(gap, peak, out)
}

/// One step of the scan: `peak` is the running peak after `value` has been
/// looked at, and `worst` the largest fall so far.
pub open spec fn dips<V: Scalar>(peak0: V, worst0: V, value: V, peak: V, worst: V) -> bool {
    exists|part: V|
        overtops(peak0, value, peak) && #[trigger] falls(peak, value, part) && overtops(
            worst0,
            part,
            worst,
        )
}

/// `peak` and `worst` are the running peak and the largest fall after a
/// scan of `w`, oldest first, that started from `peak0` and `worst0`.
pub open spec fn descends<V: Scalar>(
    w: Seq<Observation<V>>,
    peak0: V,
    worst0: V,
    peak: V,
    worst: V,
) -> bool
    decreases w.len(),
{
    if w.len() == 0 {
        peak == peak0 && worst == worst0
    } else {
        exists|m: V, d: V|
            descends(w.drop_last(), peak0, worst0, m, d) && #[trigger] dips(
                m,
                d,
                w.last().value,
                peak,
                worst,
            )
    }
}

/// `out` is a hundred times the largest fall in `w`, found by a scan that
/// starts from the least finite value as the peak and from zero as the
/// largest fall.
pub open spec fn draws_down<V: Scalar>(w: Seq<Observation<V>>, out: V) -> bool {
    exists|seed: V, nothing: V, peak: V, worst: V, hundred: V|
        floors(seed) && zeroes(nothing) && #[trigger] descends(w, seed, nothing, peak, worst)
            && counts(100, hundred) && #[trigger] multiplies(hundred, worst, out)
}

/// With deterministic arithmetic, one step of the scan has one result.
pub proof fn dips_once<V: Scalar>(peak0: V, worst0: V, value: V, ma: V, wa: V, mb: V, wb: V)
    requires
        deterministic::<V>(),
        dips(peak0, worst0, value, ma, wa),
        dips(peak0, worst0, value, mb, wb),
    ensures
        ma == mb,
        wa == wb,
{
    let pa = choose|part: V|
        overtops(peak0, value, ma) && falls(ma, value, part) && overtops(worst0, part, wa);
    let pb = choose|part: V|
        overtops(peak0, value, mb) && falls(mb, value, part) && overtops(worst0, part, wb);
    assert(ma == mb);
    assert(pa == pb);
}

/// With deterministic arithmetic, a scan of a window has one result.
pub proof fn descends_once<V: Scalar>(
    w: Seq<Observation<V>>,
    peak0: V,
    worst0: V,
    ma: V,
    wa: V,
    mb: V,
    wb: V,
)
    requires
        deterministic::<V>(),
        descends(w, peak0, worst0, ma, wa),
        descends(w, peak0, worst0, mb, wb),
    ensures
        ma == mb,
        wa == wb,
    decreases w.len(),
{
    if w.len() > 0 {
        let x = w.last().value;
        let (m1, d1) = choose|m: V, d: V|
            descends(w.drop_last(), peak0, worst0, m, d) && dips(m, d, x, ma, wa);
        let (m2, d2) = choose|m: V, d: V|
            descends(w.drop_last(), peak0, worst0, m, d) && dips(m, d, x, mb, wb);
        descends_once(w.drop_last(), peak0, worst0, m1, d1, m2, d2);
        dips_once(m1, d1, x, ma, wa, mb, wb);
    }
}

/// With deterministic arithmetic, a window has one largest fall.
pub proof fn draws_down_once<V: Scalar>(w: Seq<Observation<V>>, a: V, b: V)
    requires
        deterministic::<V>(),
        draws_down(w, a),
        draws_down(w, b),
    ensures
        a == b,
{
    let (sa, za, ma, wa, ha) = choose|seed: V, nothing: V, m: V, worst: V, hundred: V|
        floors(seed) && zeroes(nothing) && descends(w, seed, nothing, m, worst)
            && counts(100, hundred)
            && multiplies(hundred, worst, a);
    let (sb, zb, mb, wb, hb) = choose|seed: V, nothing: V, m: V, worst: V, hundred: V|
        floors(seed) && zeroes(nothing) && descends(w, seed, nothing, m, worst)
            && counts(100, hundred)
            && multiplies(hundred, worst, b);
    descends_once(w, sa, za, ma, wa, mb, wb);
}

/// The largest fall in the window, in percent.
pub fn drawdown<V: Scalar>(w: &TimeWindow<V>) -> (out: V)
    ensures
        draws_down(w@, out),
{
    let seed = lowest::<V>();
    let nothing = zero::<V>();
    let mut peak = seed;
    let mut worst = nothing;
    let mut i: usize = 0;
    while i < w.len()
        invariant
            i <= w@.len(),
            descends(w@.take(i as int), seed, nothing, peak, worst),
        decreases w@.len() - i,
    {
        let ghost m = peak;
        let ghost d = worst;
        let value = w.get(i).value;
        if less(peak, value) {
            peak = value;
        }
        let gap = minus(peak, value);
        let part = over(gap, peak);
        if less(worst, part) {
            worst = part;
        }
        proof {
            assert(w@.take(i + 1).drop_last() =~= w@.take(i as int));
            assert(w@.take(i + 1).last() == w@[i as int]);
            assert(overtops(m, value, peak));
            assert(falls(peak, value, part));
            assert(overtops(d, part, worst));
            assert(dips(m, d, value, peak, worst));
        }
        i += 1;
    }
    proof {
        assert(w@.take(w@.len() as int) =~= w@);
    }
    let hundred = from_count::<V>(100);
    times(hundred, worst)
}

impl<V: Scalar> MaxDrawdown<V> {
    /// `s` is a state that `new(duration)` may return.
    pub open spec fn starts(duration: Duration, s: DrawdownState<V>) -> bool {
        &&& s.duration == duration
        &&& duration@ > 0
        &&& s.window == Seq::<Observation<V>>::empty()
    }

    /// `post` is a state that `reset` may leave behind in state `pre`.
    pub open spec fn restarts(pre: DrawdownState<V>, post: DrawdownState<V>) -> bool {
        &&& post.duration == pre.duration
        &&& post.window == Seq::<Observation<V>>::empty()
    }

    /// In state `pre`, `next((time, value))` may leave the state `post` and
    /// return `out`: the window takes the observation in, and the reading is
    /// the largest fall in it, in percent.
    pub open spec fn steps(
        pre: DrawdownState<V>,
        time: Timestamp,
        value: V,
        post: DrawdownState<V>,
        out: V,
    ) -> bool {
        &&& post.duration == pre.duration
        &&& post.window == admitted(pre.window, time, value, pre.duration, Boundary::Exclusive)
        &&& draws_down(post.window, out)
    }

    /// The step relation as a value, for the laws that speak of whole runs.
    pub open spec fn stepper() -> spec_fn(
        DrawdownState<V>,
        Timestamp,
        V,
        DrawdownState<V>,
        V,
    ) -> bool {
        |s: DrawdownState<V>, t: Timestamp, v: V, p: DrawdownState<V>, o: V|
            Self::steps(s, t, v, p, o)
    }

    /// With deterministic arithmetic, a state and an input leave one next
    /// state and one reading.
    pub proof fn steps_once(
        s: DrawdownState<V>,
        t: Timestamp,
        v: V,
        p: DrawdownState<V>,
        o: V,
        q: DrawdownState<V>,
        u: V,
    )
        requires
            deterministic::<V>(),
            Self::steps(s, t, v, p, o),
            Self::steps(s, t, v, q, u),
        ensures
            p == q,
            o == u,
    {
        draws_down_once(p.window, o, u);
    }

    /// Idempotence of reset: with deterministic arithmetic, an instance that
    /// was fed `inputs` from new, then reset, then fed `inputs` again,
    /// returns the same readings both times.
    pub proof fn reset_replays(
        duration: Duration,
        inputs: Seq<Observation<V>>,
        first: Seq<DrawdownState<V>>,
        told: Seq<V>,
        again: Seq<DrawdownState<V>>,
        retold: Seq<V>,
    )
        requires
            deterministic::<V>(),
            Self::starts(duration, first[0]),
            runs(Self::stepper(), first, inputs, told),
            Self::restarts(first.last(), again[0]),
            runs(Self::stepper(), again, inputs, retold),
        ensures
            retold == told,
    {
        let step = Self::stepper();
        let kept = |s: DrawdownState<V>| s.duration == duration;
        assert(preserved(step, kept));
        run_keeps(step, kept, inputs, first, told, inputs.len() as int);
        assert(again[0] == first[0]);
        assert(functional(step)) by {
            assert forall|
                s: DrawdownState<V>,
                t: Timestamp,
                v: V,
                p: DrawdownState<V>,
                o: V,
                q: DrawdownState<V>,
                u: V,
            |
                #![trigger step(s, t, v, p, o), step(s, t, v, q, u)]
                step(s, t, v, p, o) && step(s, t, v, q, u) implies p == q && o == u by {
                Self::steps_once(s, t, v, p, o, q, u);
            }
        }
        same_start_same_run(step, inputs, first, told, again, retold);
    }

    /// Boundedness: fed inputs whose timestamps never go back, a new
    /// instance holds its observations in order and holds none that is
    /// older than its duration relative to the most recent input.
    pub proof fn window_stays_bounded(
        duration: Duration,
        inputs: Seq<Observation<V>>,
        states: Seq<DrawdownState<V>>,
        outs: Seq<V>,
    )
        requires
            Self::starts(duration, states[0]),
            runs(Self::stepper(), states, inputs, outs),
            in_order(inputs),
            inputs.len() > 0,
        ensures
            in_order(states.last().window),
            within(states.last().window, inputs.last().time, duration, Boundary::Exclusive),
    {
        let step = Self::stepper();
        let window_of = |s: DrawdownState<V>| s.window;
        let span_of = |s: DrawdownState<V>| s.duration;
        assert(windowed(step, window_of, span_of, Boundary::Exclusive));
        run_stays_bounded(step, window_of, span_of, Boundary::Exclusive, inputs, states, outs);
    }

    /// A new indicator over `duration`. A duration that is not positive is
    /// refused.
    pub fn new(duration: Duration) -> (r: Result<Self, TaError>)
        ensures
            duration@ > 0 <==> r is Ok,
            r is Err ==> r == Err::<Self, TaError>(TaError::InvalidParameter),
            r is Ok ==> Self::starts(duration, r.unwrap()@),
    {
        match TimeWindow::new(duration) {
            Ok(window) => Ok(MaxDrawdown { window }),
            Err(e) => Err(e),
        }
    }
}

impl<V: Scalar> MaxDrawdown<V> {
    /// The name of the indicator and, in brackets, the whole seconds of its duration.
    pub fn label(&self) -> (r: String)
        ensures
            r@ == "MaxDrawdown("@ + decimal(self@.duration.spec_num_seconds()) + "s)"@,
    {
        wrap("MaxDrawdown(", &decimal_label(self.window.duration().num_seconds()), "s)")
    }
}

impl<V: Scalar> Default for MaxDrawdown<V> {
    /// An instance over fourteen days.
    fn default() -> (r: Self)
        ensures
            MaxDrawdown::<V>::starts(Duration::of_seconds(1_209_600), r@),
    {
        match Self::new(Duration::days(14)) {
            Ok(fresh) => fresh,
            Err(_) => unreached(),
        }
    }
}

impl<V: Scalar> Next<V> for MaxDrawdown<V> {
    type Output = V;

    fn next(&mut self, input: (Timestamp, V)) -> (out: V)
        ensures
            Self::steps(old(self)@, input.0, input.1, final(self)@, out),
    {
        let (time, value) = input;
        let _ = self.window.evict_older_than(time, Boundary::Exclusive);
        self.window.push(time, value);
        drawdown(&self.window)
    }
}

impl<V: Scalar> Reset for MaxDrawdown<V> {
    fn reset(&mut self)
        ensures
            Self::restarts(old(self)@, final(self)@),
    {
        self.window.clear();
    }
}

} // verus!

use vstd::prelude::*;
use crate::error::TaError;
use crate::indicators::maximum::overtops;
use crate::indicators::minimum::undercuts;
use crate::laws::{
    functional, preserved, run_keeps, run_stays_bounded, runs, same_start_same_run, windowed,
};
use crate::scalar::{
    deterministic, ceilings, counts, divides, from_count, highest, less, minus, multiplies, over,
    subtracts, times, zero, zeroes, Scalar,
};
use crate::text::{decimal, decimal_label, wrap};
use crate::time::{Duration, Timestamp};
use crate::traits::{Next, Reset};
use crate::window::{admitted, in_order, within, Boundary, Observation, TimeWindow};

verus! {

/// The largest rise from a running trough seen in the window, in percent of the trough it
/// is measured from. Nothing is kept between calls but the window: every
/// reading comes from a scan of it.
pub struct MaxDrawup<V> {
    window: TimeWindow<V>,
}

/// What a [`MaxDrawup`] holds.
pub struct DrawupState<V> {
    pub duration: Duration,
    pub window: Seq<Observation<V>>,
}

impl<V> View for MaxDrawup<V> {
    type V = DrawupState<V>;

    closed spec fn view(&self) -> DrawupState<V> {
        DrawupState { duration: self.window.spec_duration(), window: self.window@ }
    }
}

/// `out` is `(value - trough) / trough` in `V`'s arithmetic.
pub open spec fn rises<V: Scalar>(trough: V, value: V, out: V) -> bool {
    exists|gap: V| #[trigger] subtracts(value, trough, gap) && divides(gap, trough, out)
}

/// One step of the scan: `trough` is the running trough after `value` has been
/// looked at, and `best` the largest rise so far.
pub open spec fn lifts_off<V: Scalar>(trough0: V, best0: V, value: V, trough: V, best: V) -> bool {
    exists|part: V|
        undercuts(trough0, value, trough) && #[trigger] rises(trough, value, part) && overtops(
            best0,
            part,
            best,
        )
}

/// `trough` and `best` are the running trough and the largest rise after a
/// scan of `w`, oldest first, that started from `trough0` and `best0`.
pub open spec fn ascends<V: Scalar>(
    w: Seq<Observation<V>>,
    trough0: V,
    best0: V,
    trough: V,
    best: V,
) -> bool
    decreases w.len(),
{
    if w.len() == 0 {
        trough == trough0 && best == best0
    } else {
        exists|m: V, d: V|
            ascends(w.drop_last(), trough0, best0, m, d) && #[trigger] lifts_off(
                m,
                d,
                w.last().value,
                trough,
                best,
            )
    }
}

/// `out` is a hundred times the largest rise in `w`, found by a scan that
/// starts from the greatest finite value as the trough and from zero as the
/// largest rise.
pub open spec fn draws_up<V: Scalar>(w: Seq<Observation<V>>, out: V) -> bool {
    exists|seed: V, nothing: V, trough: V, best: V, hundred: V|
        ceilings(seed) && zeroes(nothing) && #[trigger] ascends(w, seed, nothing, trough, best)
            && counts(100, hundred) && #[trigger] multiplies(hundred, best, out)
}

/// With deterministic arithmetic, one step of the scan has one result.
pub proof fn lifts_off_once<V: Scalar>(trough0: V, best0: V, value: V, ma: V, wa: V, mb: V, wb: V)
    requires
        deterministic::<V>(),
        lifts_off(trough0, best0, value, ma, wa),
        lifts_off(trough0, best0, value, mb, wb),
    ensures
        ma == mb,
        wa == wb,
{
    let pa = choose|part: V|
        undercuts(trough0, value, ma) && rises(ma, value, part) && overtops(best0, part, wa);
    let pb = choose|part: V|
        undercuts(trough0, value, mb) && rises(mb, value, part) && overtops(best0, part, wb);
    assert(ma == mb);
    assert(pa == pb);
}

/// With deterministic arithmetic, a scan of a window has one result.
pub proof fn ascends_once<V: Scalar>(
    w: Seq<Observation<V>>,
    trough0: V,
    best0: V,
    ma: V,
    wa: V,
    mb: V,
    wb: V,
)
    requires
        deterministic::<V>(),
        ascends(w, trough0, best0, ma, wa),
        ascends(w, trough0, best0, mb, wb),
    ensures
        ma == mb,
        wa == wb,
    decreases w.len(),
{
    if w.len() > 0 {
        let x = w.last().value;
        let (m1, d1) = choose|m: V, d: V|
            ascends(w.drop_last(), trough0, best0, m, d) && lifts_off(m, d, x, ma, wa);
        let (m2, d2) = choose|m: V, d: V|
            ascends(w.drop_last(), trough0, best0, m, d) && lifts_off(m, d, x, mb, wb);
        ascends_once(w.drop_last(), trough0, best0, m1, d1, m2, d2);
        lifts_off_once(m1, d1, x, ma, wa, mb, wb);
    }
}

/// With deterministic arithmetic, a window has one largest rise.
pub proof fn draws_up_once<V: Scalar>(w: Seq<Observation<V>>, a: V, b: V)
    requires
        deterministic::<V>(),
        draws_up(w, a),
        draws_up(w, b),
    ensures
        a == b,
{
    let (sa, za, ma, wa, ha) = choose|seed: V, nothing: V, m: V, best: V, hundred: V|
        ceilings(seed) && zeroes(nothing) && ascends(w, seed, nothing, m, best)
            && counts(100, hundred)
            && multiplies(hundred, best, a);
    let (sb, zb, mb, wb, hb) = choose|seed: V, nothing: V, m: V, best: V, hundred: V|
        ceilings(seed) && zeroes(nothing) && ascends(w, seed, nothing, m, best)
            && counts(100, hundred)
            && multiplies(hundred, best, b);
    ascends_once(w, sa, za, ma, wa, mb, wb);
}

/// The largest rise in the window, in percent.
pub fn drawup<V: Scalar>(w: &TimeWindow<V>) -> (out: V)
    ensures
        draws_up(w@, out),
{
    let seed = highest::<V>();
    let nothing = zero::<V>();
    let mut trough = seed;
    let mut best = nothing;
    let mut i: usize = 0;
    while i < w.len()
        invariant
            i <= w@.len(),
            ascends(w@.take(i as int), seed, nothing, trough, best),
        decreases w@.len() - i,
    {
        let ghost m = trough;
        let ghost d = best;
        let value = w.get(i).value;
        if less(value, trough) {
            trough = value;
        }
        let gap = minus(value, trough);
        let part = over(gap, trough);
        if less(best, part) {
            best = part;
        }
        proof {
            assert(w@.take(i + 1).drop_last() =~= w@.take(i as int));
            assert(w@.take(i + 1).last() == w@[i as int]);
            assert(undercuts(m, value, trough));
            assert(rises(trough, value, part));
            assert(overtops(d, part, best));
            assert(lifts_off(m, d, value, trough, best));
        }
        i += 1;
    }
    proof {
        assert(w@.take(w@.len() as int) =~= w@);
    }
    let hundred = from_count::<V>(100);
    times(hundred, best)
}

impl<V: Scalar> MaxDrawup<V> {
    /// `s` is a state that `new(duration)` may return.
    pub open spec fn starts(duration: Duration, s: DrawupState<V>) -> bool {
        &&& s.duration == duration
        &&& duration@ > 0
        &&& s.window == Seq::<Observation<V>>::empty()
    }

    /// `post` is a state that `reset` may leave behind in state `pre`.
    pub open spec fn restarts(pre: DrawupState<V>, post: DrawupState<V>) -> bool {
        &&& post.duration == pre.duration
        &&& post.window == Seq::<Observation<V>>::empty()
    }

    /// In state `pre`, `next((time, value))` may leave the state `post` and
    /// return `out`: the window takes the observation in, and the reading is
    /// the largest rise in it, in percent.
    pub open spec fn steps(
        pre: DrawupState<V>,
        time: Timestamp,
        value: V,
        post: DrawupState<V>,
        out: V,
    ) -> bool {
        &&& post.duration == pre.duration
        &&& post.window == admitted(pre.window, time, value, pre.duration, Boundary::Exclusive)
        &&& draws_up(post.window, out)
    }

    /// The step relation as a value, for the laws that speak of whole runs.
    pub open spec fn stepper() -> spec_fn(DrawupState<V>, Timestamp, V, DrawupState<V>, V) -> bool {
        |s: DrawupState<V>, t: Timestamp, v: V, p: DrawupState<V>, o: V| Self::steps(s, t, v, p, o)
    }

    /// With deterministic arithmetic, a state and an input leave one next
    /// state and one reading.
    pub proof fn steps_once(
        s: DrawupState<V>,
        t: Timestamp,
        v: V,
        p: DrawupState<V>,
        o: V,
        q: DrawupState<V>,
        u: V,
    )
        requires
            deterministic::<V>(),
            Self::steps(s, t, v, p, o),
            Self::steps(s, t, v, q, u),
        ensures
            p == q,
            o == u,
    {
        draws_up_once(p.window, o, u);
    }

    /// Idempotence of reset: with deterministic arithmetic, an instance that
    /// was fed `inputs` from new, then reset, then fed `inputs` again,
    /// returns the same readings both times.
    pub proof fn reset_replays(
        duration: Duration,
        inputs: Seq<Observation<V>>,
        first: Seq<DrawupState<V>>,
        told: Seq<V>,
        again: Seq<DrawupState<V>>,
        retold: Seq<V>,
    )
        requires
            deterministic::<V>(),
            Self::starts(duration, first[0]),
            runs(Self::stepper(), first, inputs, told),
            Self::restarts(first.last(), again[0]),
            runs(Self::stepper(), again, inputs, retold),
        ensures
            retold == told,
    {
        let step = Self::stepper();
        let kept = |s: DrawupState<V>| s.duration == duration;
        assert(preserved(step, kept));
        run_keeps(step, kept, inputs, first, told, inputs.len() as int);
        assert(again[0] == first[0]);
        assert(functional(step)) by {
            assert forall|
                s: DrawupState<V>,
                t: Timestamp,
                v: V,
                p: DrawupState<V>,
                o: V,
                q: DrawupState<V>,
                u: V,
            |
                #![trigger step(s, t, v, p, o), step(s, t, v, q, u)]
                step(s, t, v, p, o) && step(s, t, v, q, u) implies p == q && o == u by {
                Self::steps_once(s, t, v, p, o, q, u);
            }
        }
        same_start_same_run(step, inputs, first, told, again, retold);
    }

    /// Boundedness: fed inputs whose timestamps never go back, a new
    /// instance holds its observations in order and holds none that is
    /// older than its duration relative to the most recent input.
    pub proof fn window_stays_bounded(
        duration: Duration,
        inputs: Seq<Observation<V>>,
        states: Seq<DrawupState<V>>,
        outs: Seq<V>,
    )
        requires
            Self::starts(duration, states[0]),
            runs(Self::stepper(), states, inputs, outs),
            in_order(inputs),
            inputs.len() > 0,
        ensures
            in_order(states.last().window),
            within(states.last().window, inputs.last().time, duration, Boundary::Exclusive),
    {
        let step = Self::stepper();
        let window_of = |s: DrawupState<V>| s.window;
        let span_of = |s: DrawupState<V>| s.duration;
        assert(windowed(step, window_of, span_of, Boundary::Exclusive));
        run_stays_bounded(step, window_of, span_of, Boundary::Exclusive, inputs, states, outs);
    }

    /// A new indicator over `duration`. A duration that is not positive is
    /// refused.
    pub fn new(duration: Duration) -> (r: Result<Self, TaError>)
        ensures
            duration@ > 0 <==> r is Ok,
            r is Err ==> r == Err::<Self, TaError>(TaError::InvalidParameter),
            r is Ok ==> Self::starts(duration, r.unwrap()@),
    {
        match TimeWindow::new(duration) {
            Ok(window) => Ok(MaxDrawup { window }),
            Err(e) => Err(e),
        }
    }
}

impl<V: Scalar> MaxDrawup<V> {
    /// The name of the indicator and, in brackets, the whole seconds of its duration.
    pub fn label(&self) -> (r: String)
        ensures
            r@ == "MaxDrawup("@ + decimal(self@.duration.spec_num_seconds()) + "s)"@,
    {
        wrap("MaxDrawup(", &decimal_label(self.window.duration().num_seconds()), "s)")
    }
}

impl<V: Scalar> Default for MaxDrawup<V> {
    /// An instance over fourteen days.
    fn default() -> (r: Self)
        ensures
            MaxDrawup::<V>::starts(Duration::of_seconds(1_209_600), r@),
    {
        match Self::new(Duration::days(14)) {
            Ok(fresh) => fresh,
            Err(_) => unreached(),
        }
    }
}

impl<V: Scalar> Next<V> for MaxDrawup<V> {
    type Output = V;

    fn next(&mut self, input: (Timestamp, V)) -> (out: V)
        ensures
            Self::steps(old(self)@, input.0, input.1, final(self)@, out),
    {
        let (time, value) = input;
        let _ = self.window.evict_older_than(time, Boundary::Exclusive);
        self.window.push(time, value);
        drawup(&self.window)
    }
}

impl<V: Scalar> Reset for MaxDrawup<V> {
    fn reset(&mut self)
        ensures
            Self::restarts(old(self)@, final(self)@),
    {
        self.window.clear();
    }
}

} // verus!

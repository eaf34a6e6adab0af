use vstd::prelude::*;
use crate::error::TaError;
use crate::indicators::simple_moving_average::{
    roll, rolled_sum_is_the_sum, rolls, rolls_once,
};
use crate::laws::{
    functional, preserved, run_keeps, run_stays_bounded, runs, same_start_same_run, windowed,
};
use crate::running::{average, averages, exact_sums, gathers, subtractable, sums_to};
use crate::scalar::{
    adds, counts, deterministic, divides, from_count, less, minus, multiplies, orders, over, plus,
    root, roots, subtracts, times, zero, zeroes, Scalar,
};
use crate::text::wrap;
use crate::time::{Duration, Timestamp};
use crate::traits::{Next, Reset};
use crate::window::{
    admitted, expired, in_order, stale_prefix, stale_prefix_is_longest, within, Boundary,
    Observation, TimeWindow,
};

verus! {

/// The population standard deviation of the values in the window, kept
/// through a running sum and a running sum of squares.
pub struct StandardDeviation<V> {
    window: TimeWindow<V>,
    sum: V,
    sum_sq: V,
}

/// What a [`StandardDeviation`] holds.
pub struct SdState<V> {
    pub duration: Duration,
    pub window: Seq<Observation<V>>,
    pub sum: V,
    pub sum_sq: V,
}

impl<V> View for StandardDeviation<V> {
    type V = SdState<V>;

    closed spec fn view(&self) -> SdState<V> {
        SdState {
            duration: self.window.spec_duration(),
            window: self.window@,
            sum: self.sum,
            sum_sq: self.sum_sq,
        }
    }
}

/// `to` is `from - value * value` in `V`'s arithmetic.
pub open spec fn unsquares<V: Scalar>(from: V, value: V, to: V) -> bool {
    exists|sq: V| #[trigger] multiplies(value, value, sq) && subtracts(from, sq, to)
}

/// `to` is `from + value * value` in `V`'s arithmetic.
pub open spec fn squares_in<V: Scalar>(from: V, value: V, to: V) -> bool {
    exists|sq: V| #[trigger] multiplies(value, value, sq) && adds(from, sq, to)
}

/// `to` is what is left of `from` once the squares of the values of `gone`
/// have been subtracted from it one by one, oldest first.
pub open spec fn drains_squares<V: Scalar>(gone: Seq<Observation<V>>, from: V, to: V) -> bool
    decreases gone.len(),
{
    if gone.len() == 0 {
        to == from
    } else {
        exists|mid: V|
            drains_squares(gone.drop_last(), from, mid) && #[trigger] unsquares(
                mid,
                gone.last().value,
                to,
            )
    }
}

/// `to` is the running sum of squares `from` after the squares of the values
/// of `gone` have been subtracted from it, oldest first, and the square of
/// `value` has been added.
pub open spec fn rolls_squares<V: Scalar>(
    gone: Seq<Observation<V>>,
    from: V,
    value: V,
    to: V,
) -> bool {
    exists|rest: V| drains_squares(gone, from, rest) && #[trigger] squares_in(rest, value, to)
}

/// `raw` is `(sum_sq - sum * mean) / len` with `mean = sum / len`, in `V`'s
/// arithmetic.
pub open spec fn disperses<V: Scalar>(sum: V, sum_sq: V, len: nat, raw: V) -> bool {
    exists|n: V, mean: V, prod: V, diff: V|
        counts(len as int, n) && #[trigger] divides(sum, n, mean) && multiplies(sum, mean, prod)
            && #[trigger] subtracts(sum_sq, prod, diff) && divides(diff, n, raw)
}

/// `out` is `raw`, or zero where `raw` is below zero.
pub open spec fn clamps<V: Scalar>(raw: V, out: V) -> bool {
    exists|nothing: V, below: bool|
        zeroes(nothing) && #[trigger] orders(raw, nothing, below) && out == if below {
            nothing
        } else {
            raw
        }
}

/// `out` is the variance that the two running sums of `len` values give,
/// raised to zero where the arithmetic left it below zero.
pub open spec fn varies<V: Scalar>(sum: V, sum_sq: V, len: nat, out: V) -> bool {
    exists|raw: V| #[trigger] disperses(sum, sum_sq, len, raw) && clamps(raw, out)
}

/// `out` is the standard deviation that the two running sums of `len` values
/// give: the square root of their variance, and zero where there is no value.
pub open spec fn spreads<V: Scalar>(sum: V, sum_sq: V, len: nat, out: V) -> bool {
    if len == 0 {
        zeroes(out)
    } else {
        exists|variance: V| #[trigger] varies(sum, sum_sq, len, variance) && roots(variance, out)
    }
}

/// With deterministic arithmetic, draining a sum of squares has one result.
pub proof fn drains_squares_once<V: Scalar>(
    w: Seq<Observation<V>>,
    from: V,
    a: V,
    b: V,
)
    requires
        deterministic::<V>(),
        drains_squares(w, from, a),
        drains_squares(w, from, b),
    ensures
        a == b,
    decreases w.len(),
{
    if w.len() > 0 {
        let x = w.last().value;
        let ma = choose|m: V| drains_squares(w.drop_last(), from, m) && unsquares(m, x, a);
        let mb = choose|m: V| drains_squares(w.drop_last(), from, m) && unsquares(m, x, b);
        drains_squares_once(w.drop_last(), from, ma, mb);
    }
}

/// With deterministic arithmetic, moving a running sum of squares on has one
/// result.
pub proof fn rolls_squares_once<V: Scalar>(
    gone: Seq<Observation<V>>,
    from: V,
    value: V,
    a: V,
    b: V,
)
    requires
        deterministic::<V>(),
        rolls_squares(gone, from, value, a),
        rolls_squares(gone, from, value, b),
    ensures
        a == b,
{
    let ra = choose|r: V| drains_squares(gone, from, r) && squares_in(r, value, a);
    let rb = choose|r: V| drains_squares(gone, from, r) && squares_in(r, value, b);
    drains_squares_once(gone, from, ra, rb);
}

/// With deterministic arithmetic, two running sums give one standard
/// deviation.
pub proof fn spreads_once<V: Scalar>(sum: V, sum_sq: V, len: nat, a: V, b: V)
    requires
        deterministic::<V>(),
        spreads(sum, sum_sq, len, a),
        spreads(sum, sum_sq, len, b),
    ensures
        a == b,
{
    if len > 0 {
        let va = choose|x: V| varies(sum, sum_sq, len, x) && roots(x, a);
        let vb = choose|x: V| varies(sum, sum_sq, len, x) && roots(x, b);
        let ra = choose|r: V| disperses(sum, sum_sq, len, r) && clamps(r, va);
        let rb = choose|r: V| disperses(sum, sum_sq, len, r) && clamps(r, vb);
        assert(ra == rb);
        assert(va == vb);
    }
}

/// `to` is `from` with the squares of the values of `w` added to it one by
/// one, oldest first.
pub open spec fn gathers_squares<V: Scalar>(w: Seq<Observation<V>>, from: V, to: V) -> bool
    decreases w.len(),
{
    if w.len() == 0 {
        to == from
    } else {
        exists|mid: V|
            gathers_squares(w.drop_last(), from, mid) && #[trigger] squares_in(
                mid,
                w.last().value,
                to,
            )
    }
}

/// `total` is the sum of the squares of the values of `w`, added up from
/// zero, oldest first.
pub open spec fn squares_sum_to<V: Scalar>(w: Seq<Observation<V>>, total: V) -> bool {
    exists|nothing: V| zeroes(nothing) && #[trigger] gathers_squares(w, nothing, total)
}

/// Adding up the squares of a window is adding the first square to the start
/// and the others to that.
pub proof fn gathers_squares_from_the_front<V: Scalar>(w: Seq<Observation<V>>, from: V, to: V)
    requires
        w.len() > 0,
        gathers_squares(w, from, to),
    ensures
        exists|a: V| #[trigger] squares_in(from, w[0].value, a) && gathers_squares(w.skip(1), a, to),
    decreases w.len(),
{
    let before = w.drop_last();
    let mid = choose|m: V|
        gathers_squares(w.drop_last(), from, m) && #[trigger] squares_in(m, w.last().value, to);
    if before.len() == 0 {
        assert(w.skip(1).len() == 0);
        assert(squares_in(from, w[0].value, to) && gathers_squares(w.skip(1), to, to));
    } else {
        gathers_squares_from_the_front(before, from, mid);
        let a = choose|a: V|
            squares_in(from, before[0].value, a) && gathers_squares(before.skip(1), a, mid);
        assert(w.skip(1).drop_last() =~= before.skip(1));
        assert(squares_in(mid, w.skip(1).last().value, to));
        assert(squares_in(from, w[0].value, a) && gathers_squares(w.skip(1), a, to));
    }
}

/// With exact sums, taking away from the sum of the squares of a window a
/// square that stood in the start gives the sum from the start without it.
pub proof fn gathers_squares_without<V: Scalar>(
    w: Seq<Observation<V>>,
    from: V,
    x: V,
    with: V,
    to: V,
    rest: V,
)
    requires
        deterministic::<V>(),
        exact_sums::<V>(),
        squares_in(from, x, with),
        gathers_squares(w, with, to),
        unsquares(to, x, rest),
    ensures
        gathers_squares(w, from, rest),
    decreases w.len(),
{
    let sq = choose|sq: V| multiplies(x, x, sq) && subtracts(to, sq, rest);
    if w.len() > 0 {
        let y = w.last().value;
        let mid = choose|m: V|
            gathers_squares(w.drop_last(), with, m) && #[trigger] squares_in(m, y, to);
        assert(subtractable(mid, sq));
        let less_x = choose|r: V| subtracts(mid, sq, r);
        assert(unsquares(mid, x, less_x));
        gathers_squares_without(w.drop_last(), from, x, with, mid, less_x);
        let sq_y = choose|q: V| multiplies(y, y, q) && adds(mid, q, to);
        assert(adds(less_x, sq_y, rest));
        assert(squares_in(less_x, y, rest));
    } else {
        let sq_in = choose|q: V| multiplies(x, x, q) && adds(from, q, with);
        assert(sq_in == sq);
    }
}

/// With exact sums, a sum of squares of a window from which the squares of
/// its first `k` values are subtracted is the sum of the other squares.
pub proof fn drained_squares_are_the_rest<V: Scalar>(
    w: Seq<Observation<V>>,
    k: int,
    from: V,
    total: V,
    rest: V,
)
    requires
        deterministic::<V>(),
        exact_sums::<V>(),
        0 <= k <= w.len(),
        gathers_squares(w, from, total),
        drains_squares(w.take(k), total, rest),
    ensures
        gathers_squares(w.skip(k), from, rest),
    decreases k,
{
    if k == 0 {
        assert(w.skip(0) =~= w);
    } else {
        let gone = w.take(k);
        let x = w[k - 1].value;
        assert(gone.last().value == x);
        assert(gone.drop_last() =~= w.take(k - 1));
        let mid = choose|m: V| drains_squares(gone.drop_last(), total, m) && unsquares(m, x, rest);
        drained_squares_are_the_rest(w, k - 1, from, total, mid);
        let tail = w.skip(k - 1);
        gathers_squares_from_the_front(tail, from, mid);
        let a = choose|a: V|
            squares_in(from, tail[0].value, a) && gathers_squares(tail.skip(1), a, mid);
        assert(tail.skip(1) =~= w.skip(k));
        gathers_squares_without(w.skip(k), from, x, a, mid, rest);
    }
}

/// With exact sums, a running sum of squares that was the sum of the squares
/// of the window before an observation came in is that sum after it.
pub proof fn rolled_squares_are_the_sum<V: Scalar>(
    w: Seq<Observation<V>>,
    now: Timestamp,
    value: V,
    span: Duration,
    edge: Boundary,
    from: V,
    to: V,
)
    requires
        deterministic::<V>(),
        exact_sums::<V>(),
        squares_sum_to(w, from),
        rolls_squares(expired(w, now, span, edge), from, value, to),
    ensures
        squares_sum_to(admitted(w, now, value, span, edge), to),
{
    stale_prefix_is_longest(w, now, span, edge);
    let k = stale_prefix(w, now, span, edge) as int;
    let nothing = choose|z: V| zeroes(z) && gathers_squares(w, z, from);
    let rest = choose|r: V|
        drains_squares(expired(w, now, span, edge), from, r) && squares_in(r, value, to);
    drained_squares_are_the_rest(w, k, nothing, from, rest);
    let next = admitted(w, now, value, span, edge);
    assert(next.drop_last() =~= w.skip(k));
    assert(squares_in(rest, next.last().value, to));
    assert(gathers_squares(next, nothing, to));
}

/// Moves a running sum of squares on by one observation.
pub fn roll_squares<V: Scalar>(sum_sq: V, gone: &Vec<Observation<V>>, value: V) -> (r: V)
    ensures
        rolls_squares(gone@, sum_sq, value, r),
{
    let mut acc = sum_sq;
    let mut i: usize = 0;
    while i < gone.len()
        invariant
            i <= gone.len(),
            drains_squares(gone@.take(i as int), sum_sq, acc),
        decreases gone.len() - i,
    {
        let ghost before = acc;
        let sq = times(gone[i].value, gone[i].value);
        acc = minus(acc, sq);
        proof {
            assert(gone@.take(i + 1).drop_last() =~= gone@.take(i as int));
            assert(gone@.take(i + 1).last() == gone@[i as int]);
            assert(unsquares(before, gone@[i as int].value, acc));
        }
        i += 1;
    }
    proof {
        assert(gone@.take(gone.len() as int) =~= gone@);
    }
    let sq = times(value, value);
    let r = plus(acc, sq);
    assert(squares_in(acc, value, r));
    r
}

/// The population standard deviation that the two running sums of `len`
/// values give.
pub fn spread<V: Scalar>(sum: V, sum_sq: V, len: usize) -> (out: V)
    ensures
        spreads(sum, sum_sq, len as nat, out),
{
    if len == 0 {
        zero()
    } else {
        let n = from_count::<V>(len as u64);
        let mean = over(sum, n);
        let prod = times(sum, mean);
        let diff = minus(sum_sq, prod);
        let raw = over(diff, n);
        let nothing = zero::<V>();
        let variance = if less(raw, nothing) {
            nothing
        } else {
            raw
        };
        assert(disperses(sum, sum_sq, len as nat, raw));
        assert(clamps(raw, variance));
        assert(varies(sum, sum_sq, len as nat, variance));
        root(variance)
    }
}

impl<V: Scalar> StandardDeviation<V> {
    /// `s` is a state that `new(duration)` may return.
    pub open spec fn starts(duration: Duration, s: SdState<V>) -> bool {
        &&& s.duration == duration
        &&& duration@ > 0
        &&& s.window == Seq::<Observation<V>>::empty()
        &&& zeroes(s.sum)
        &&& zeroes(s.sum_sq)
    }

    /// `post` is a state that `reset` may leave behind in state `pre`.
    pub open spec fn restarts(pre: SdState<V>, post: SdState<V>) -> bool {
        &&& post.duration == pre.duration
        &&& post.window == Seq::<Observation<V>>::empty()
        &&& zeroes(post.sum)
        &&& zeroes(post.sum_sq)
    }

    /// In state `pre`, `next((time, value))` may leave the state `post` and
    /// return `out`: the window takes the observation in, the two running
    /// sums lose what left the window and gain the value, and the reading is
    /// the standard deviation they give.
    pub open spec fn steps(
        pre: SdState<V>,
        time: Timestamp,
        value: V,
        post: SdState<V>,
        out: V,
    ) -> bool {
        let gone = expired(pre.window, time, pre.duration, Boundary::Inclusive);
        &&& post.duration == pre.duration
        &&& post.window == admitted(pre.window, time, value, pre.duration, Boundary::Inclusive)
        &&& rolls(gone, pre.sum, value, post.sum)
        &&& rolls_squares(gone, pre.sum_sq, value, post.sum_sq)
        &&& spreads(post.sum, post.sum_sq, post.window.len(), out)
    }

    /// The step relation as a value, for the laws that speak of whole runs.
    pub open spec fn stepper() -> spec_fn(SdState<V>, Timestamp, V, SdState<V>, V) -> bool {
        |s: SdState<V>, t: Timestamp, v: V, p: SdState<V>, o: V| Self::steps(s, t, v, p, o)
    }

    /// With deterministic arithmetic, a state and an input leave one next
    /// state and one reading.
    pub proof fn steps_once(
        s: SdState<V>,
        t: Timestamp,
        v: V,
        p: SdState<V>,
        o: V,
        q: SdState<V>,
        u: V,
    )
        requires
            deterministic::<V>(),
            Self::steps(s, t, v, p, o),
            Self::steps(s, t, v, q, u),
        ensures
            p == q,
            o == u,
    {
        let gone = expired(s.window, t, s.duration, Boundary::Inclusive);
        rolls_once(gone, s.sum, v, p.sum, q.sum);
        rolls_squares_once(gone, s.sum_sq, v, p.sum_sq, q.sum_sq);
        spreads_once(p.sum, p.sum_sq, p.window.len(), o, u);
    }

    /// Idempotence of reset: with deterministic arithmetic, an instance that
    /// was fed `inputs` from new, then reset, then fed `inputs` again,
    /// returns the same readings both times.
    pub proof fn reset_replays(
        duration: Duration,
        inputs: Seq<Observation<V>>,
        first: Seq<SdState<V>>,
        told: Seq<V>,
        again: Seq<SdState<V>>,
        retold: Seq<V>,
    )
        requires
            deterministic::<V>(),
            Self::starts(duration, first[0]),
            runs(Self::stepper(), first, inputs, told),
            Self::restarts(first.last(), again[0]),
            runs(Self::stepper(), again, inputs, retold),
        ensures
            retold == told,
    {
        let step = Self::stepper();
        let kept = |s: SdState<V>| s.duration == duration;
        assert(preserved(step, kept));
        run_keeps(step, kept, inputs, first, told, inputs.len() as int);
        assert(again[0] == first[0]);
        assert(functional(step)) by {
            assert forall|
                s: SdState<V>,
                t: Timestamp,
                v: V,
                p: SdState<V>,
                o: V,
                q: SdState<V>,
                u: V,
            |
                #![trigger step(s, t, v, p, o), step(s, t, v, q, u)]
                step(s, t, v, p, o) && step(s, t, v, q, u) implies p == q && o == u by {
                Self::steps_once(s, t, v, p, o, q, u);
            }
        }
        same_start_same_run(step, inputs, first, told, again, retold);
    }

    /// Boundedness: fed inputs whose timestamps never go back, a new
    /// instance holds its observations in order and holds none that is
    /// as old as, or older than, its duration relative to the most recent input.
    pub proof fn window_stays_bounded(
        duration: Duration,
        inputs: Seq<Observation<V>>,
        states: Seq<SdState<V>>,
        outs: Seq<V>,
    )
        requires
            Self::starts(duration, states[0]),
            runs(Self::stepper(), states, inputs, outs),
            in_order(inputs),
            inputs.len() > 0,
        ensures
            in_order(states.last().window),
            within(states.last().window, inputs.last().time, duration, Boundary::Inclusive),
    {
        let step = Self::stepper();
        let window_of = |s: SdState<V>| s.window;
        let span_of = |s: SdState<V>| s.duration;
        assert(windowed(step, window_of, span_of, Boundary::Inclusive));
        run_stays_bounded(step, window_of, span_of, Boundary::Inclusive, inputs, states, outs);
    }

    /// With exact and deterministic arithmetic, the reading after any inputs
    /// is the standard deviation that the sum of the window's values and the
    /// sum of their squares give.
    pub proof fn reading_is_the_deviation(
        duration: Duration,
        inputs: Seq<Observation<V>>,
        states: Seq<SdState<V>>,
        outs: Seq<V>,
    )
        requires
            deterministic::<V>(),
            exact_sums::<V>(),
            Self::starts(duration, states[0]),
            runs(Self::stepper(), states, inputs, outs),
            inputs.len() > 0,
        ensures
            exists|total: V, squares: V| #[trigger]
                spreads(total, squares, states.last().window.len(), outs.last()) && sums_to(
                    states.last().window,
                    total,
                ) && squares_sum_to(states.last().window, squares),
    {
        let step = Self::stepper();
        let kept = |s: SdState<V>| sums_to(s.window, s.sum) && squares_sum_to(s.window, s.sum_sq);
        assert(kept(states[0])) by {
            assert(gathers(states[0].window, states[0].sum, states[0].sum));
            assert(gathers_squares(states[0].window, states[0].sum_sq, states[0].sum_sq));
        }
        assert(preserved(step, kept)) by {
            assert forall|s: SdState<V>, t: Timestamp, v: V, p: SdState<V>, o: V| #[trigger]
                step(s, t, v, p, o) && kept(s) implies kept(p) by {
                rolled_sum_is_the_sum(s.window, t, v, s.duration, Boundary::Inclusive, s.sum, p.sum);
                rolled_squares_are_the_sum(
                    s.window,
                    t,
                    v,
                    s.duration,
                    Boundary::Inclusive,
                    s.sum_sq,
                    p.sum_sq,
                );
            }
        }
        run_keeps(step, kept, inputs, states, outs, inputs.len() as int);
        let n = inputs.len() - 1;
        assert(step(states[n], inputs[n].time, inputs[n].value, states[n + 1], outs[n]));
        let last = states.last();
        assert(spreads(last.sum, last.sum_sq, last.window.len(), outs.last()) && sums_to(
            last.window,
            last.sum,
        ) && squares_sum_to(last.window, last.sum_sq));
    }

    /// A new indicator over `duration`. A duration that is not positive is
    /// refused.
    pub fn new(duration: Duration) -> (r: Result<Self, TaError>)
        ensures
            duration@ > 0 <==> r is Ok,
            r is Err ==> r == Err::<Self, TaError>(TaError::InvalidParameter),
            r is Ok ==> Self::starts(duration, r.unwrap()@),
    {
        match TimeWindow::new(duration) {
            Ok(window) => Ok(StandardDeviation { window, sum: zero(), sum_sq: zero() }),
            Err(e) => Err(e),
        }
    }

    /// The mean of the values in the window, from the running sum; zero for
    /// an empty window.
    pub fn mean(&self) -> (out: V)
        ensures
            averages(self@.sum, self@.window.len(), out),
    {
        average(self.sum, self.window.len())
    }
}

impl<V: Scalar> StandardDeviation<V> {
    /// The name of the indicator and, in brackets, its duration in debug form.
    pub fn label(&self) -> (r: String)
        ensures
            r@ == "SD("@ + self@.duration.debug_text() + ")"@,
    {
        wrap("SD(", &self.window.duration().debug_label(), ")")
    }
}

impl<V: Scalar> Default for StandardDeviation<V> {
    /// An instance over fourteen days.
    fn default() -> (r: Self)
        ensures
            StandardDeviation::<V>::starts(Duration::of_seconds(1_209_600), r@),
    {
        match Self::new(Duration::days(14)) {
            Ok(fresh) => fresh,
            Err(_) => unreached(),
        }
    }
}

impl<V: Scalar> Next<V> for StandardDeviation<V> {
    type Output = V;

    fn next(&mut self, input: (Timestamp, V)) -> (out: V)
        ensures
            Self::steps(old(self)@, input.0, input.1, final(self)@, out),
    {
        let (time, value) = input;
        let gone = self.window.evict_older_than(time, Boundary::Inclusive);
        self.window.push(time, value);
        self.sum = roll(self.sum, &gone, value);
        self.sum_sq = roll_squares(self.sum_sq, &gone, value);
        spread(self.sum, self.sum_sq, self.window.len())
    }
}

impl<V: Scalar> Reset for StandardDeviation<V> {
    fn reset(&mut self)
        ensures
            Self::restarts(old(self)@, final(self)@),
    {
        self.window.clear();
        self.sum = zero();
        self.sum_sq = zero();
    }
}

} // verus!

//! What holds of every indicator over a whole sequence of inputs, stated
//! once for any state type and any step relation. Each indicator applies
//! these to its own `steps`.
use vstd::prelude::*;
use crate::time::{Duration, Timestamp};
use crate::window::{
    admitted, in_order, replayed, replayed_window_is_bounded, within, Boundary, Observation,
};

verus! {

/// Feeding `inputs` one by one, the indicator may go through `states`, from
/// `states[0]` before the first input to `states.last()` after the last, and
/// return `outs`.
pub open spec fn runs<S, V>(
    step: spec_fn(S, Timestamp, V, S, V) -> bool,
    states: Seq<S>,
    inputs: Seq<Observation<V>>,
    outs: Seq<V>,
) -> bool {
    &&& states.len() == inputs.len() + 1
    &&& outs.len() == inputs.len()
    &&& forall|i: int|
        #![trigger states[i]]
        0 <= i < inputs.len() ==> step(
            states[i],
            inputs[i].time,
            inputs[i].value,
            states[i + 1],
            outs[i],
        )
}

/// A state and an input leave one next state and one reading.
pub open spec fn functional<S, V>(step: spec_fn(S, Timestamp, V, S, V) -> bool) -> bool {
    forall|s: S, t: Timestamp, v: V, p: S, o: V, q: S, u: V|
        #![trigger step(s, t, v, p, o), step(s, t, v, q, u)]
        step(s, t, v, p, o) && step(s, t, v, q, u) ==> p == q && o == u
}

/// Every step that starts in a state where `inv` holds ends in one.
pub open spec fn preserved<S, V>(
    step: spec_fn(S, Timestamp, V, S, V) -> bool,
    inv: spec_fn(S) -> bool,
) -> bool {
    forall|s: S, t: Timestamp, v: V, p: S, o: V| #[trigger]
        step(s, t, v, p, o) && inv(s) ==> inv(p)
}

/// Every step takes the observation into the window that `window_of` reads,
/// under the rule `edge`, and keeps the duration that `span_of` reads.
pub open spec fn windowed<S, V>(
    step: spec_fn(S, Timestamp, V, S, V) -> bool,
    window_of: spec_fn(S) -> Seq<Observation<V>>,
    span_of: spec_fn(S) -> Duration,
    edge: Boundary,
) -> bool {
    forall|s: S, t: Timestamp, v: V, p: S, o: V| #[trigger]
        step(s, t, v, p, o) ==> span_of(p) == span_of(s) && window_of(p) == admitted(
            window_of(s),
            t,
            v,
            span_of(s),
            edge,
        )
}

/// Two runs over the same inputs that start in the same state go through the
/// same states and return the same readings.
pub proof fn same_start_same_run<S, V>(
    step: spec_fn(S, Timestamp, V, S, V) -> bool,
    inputs: Seq<Observation<V>>,
    a: Seq<S>,
    oa: Seq<V>,
    b: Seq<S>,
    ob: Seq<V>,
)
    requires
        functional(step),
        runs(step, a, inputs, oa),
        runs(step, b, inputs, ob),
        a[0] == b[0],
    ensures
        a == b,
        oa == ob,
{
    assert forall|i: int| 0 <= i <= inputs.len() implies a[i] == b[i] by {
        same_prefix(step, inputs, a, oa, b, ob, i);
    }
    assert forall|i: int| 0 <= i < inputs.len() implies oa[i] == ob[i] by {
        same_prefix(step, inputs, a, oa, b, ob, i);
        assert(step(a[i], inputs[i].time, inputs[i].value, a[i + 1], oa[i]));
        assert(step(b[i], inputs[i].time, inputs[i].value, b[i + 1], ob[i]));
    }
    assert(a =~= b);
    assert(oa =~= ob);
}

proof fn same_prefix<S, V>(
    step: spec_fn(S, Timestamp, V, S, V) -> bool,
    inputs: Seq<Observation<V>>,
    a: Seq<S>,
    oa: Seq<V>,
    b: Seq<S>,
    ob: Seq<V>,
    i: int,
)
    requires
        functional(step),
        runs(step, a, inputs, oa),
        runs(step, b, inputs, ob),
        a[0] == b[0],
        0 <= i <= inputs.len(),
    ensures
        a[i] == b[i],
    decreases i,
{
    if i > 0 {
        same_prefix(step, inputs, a, oa, b, ob, i - 1);
        assert(step(a[i - 1], inputs[i - 1].time, inputs[i - 1].value, a[i - 1 + 1], oa[i - 1]));
        assert(step(b[i - 1], inputs[i - 1].time, inputs[i - 1].value, b[i - 1 + 1], ob[i - 1]));
    }
}

/// What every step preserves, and what holds at the start of a run, holds in
/// every state of the run.
pub proof fn run_keeps<S, V>(
    step: spec_fn(S, Timestamp, V, S, V) -> bool,
    inv: spec_fn(S) -> bool,
    inputs: Seq<Observation<V>>,
    states: Seq<S>,
    outs: Seq<V>,
    i: int,
)
    requires
        preserved(step, inv),
        runs(step, states, inputs, outs),
        inv(states[0]),
        0 <= i <= inputs.len(),
    ensures
        inv(states[i]),
    decreases i,
{
    if i > 0 {
        run_keeps(step, inv, inputs, states, outs, i - 1);
        let j = i - 1;
        assert(step(states[j], inputs[j].time, inputs[j].value, states[j + 1], outs[j]));
    }
}

/// A run that starts with an empty window ends with the window that the
/// inputs leave when they are fed to an empty window.
pub proof fn run_replays_window<S, V>(
    step: spec_fn(S, Timestamp, V, S, V) -> bool,
    window_of: spec_fn(S) -> Seq<Observation<V>>,
    span_of: spec_fn(S) -> Duration,
    edge: Boundary,
    inputs: Seq<Observation<V>>,
    states: Seq<S>,
    outs: Seq<V>,
)
    requires
        windowed(step, window_of, span_of, edge),
        runs(step, states, inputs, outs),
        window_of(states[0]) == Seq::<Observation<V>>::empty(),
    ensures
        span_of(states.last()) == span_of(states[0]),
        window_of(states.last()) == replayed(inputs, span_of(states[0]), edge),
    decreases inputs.len(),
{
    if inputs.len() > 0 {
        let n = inputs.len() - 1;
        let before = inputs.drop_last();
        let earlier = states.drop_last();
        let told = outs.drop_last();
        assert(runs(step, earlier, before, told)) by {
            assert forall|i: int| 0 <= i < before.len() implies step(
                #[trigger] earlier[i],
                before[i].time,
                before[i].value,
                earlier[i + 1],
                told[i],
            ) by {
                assert(step(states[i], inputs[i].time, inputs[i].value, states[i + 1], outs[i]));
            }
        }
        run_replays_window(step, window_of, span_of, edge, before, earlier, told);
        assert(earlier.last() == states[n]);
        assert(step(states[n], inputs[n].time, inputs[n].value, states[n + 1], outs[n]));
    }
}

/// Boundedness for a whole run: fed inputs whose timestamps never go back,
/// an indicator that started with an empty window holds nothing older than
/// its duration relative to the most recent input, and holds its
/// observations in order.
pub proof fn run_stays_bounded<S, V>(
    step: spec_fn(S, Timestamp, V, S, V) -> bool,
    window_of: spec_fn(S) -> Seq<Observation<V>>,
    span_of: spec_fn(S) -> Duration,
    edge: Boundary,
    inputs: Seq<Observation<V>>,
    states: Seq<S>,
    outs: Seq<V>,
)
    requires
        windowed(step, window_of, span_of, edge),
        runs(step, states, inputs, outs),
        window_of(states[0]) == Seq::<Observation<V>>::empty(),
        span_of(states[0])@ > 0,
        in_order(inputs),
        inputs.len() > 0,
    ensures
        in_order(window_of(states.last())),
        within(window_of(states.last()), inputs.last().time, span_of(states[0]), edge),
        window_of(states.last()).len() > 0,
{
    run_replays_window(step, window_of, span_of, edge, inputs, states, outs);
    replayed_window_is_bounded(inputs, span_of(states[0]), edge);
}

} // verus!

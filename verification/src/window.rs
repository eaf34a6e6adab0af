use std::collections::VecDeque;
use vstd::prelude::*;
use crate::error::TaError;
use crate::time::{Duration, Timestamp};

verus! {

/// Which side of the window's old edge still counts as inside.
#[derive(Debug, Clone, Copy, PartialEq, Eq, Structural)]
pub enum Boundary {
    /// An observation exactly one duration old has left the window.
    Inclusive,
    /// An observation exactly one duration old is still in the window.
    Exclusive,
}

/// One input: a value and the instant it was observed at.
#[derive(Debug, Clone, Copy)]
pub struct Observation<V> {
    pub time: Timestamp,
    pub value: V,
}

impl Boundary {
    /// Whether an observation made at `time` has aged out of a window of
    /// length `span` once the clock reads `now`.
    pub open spec fn stale(self, time: Timestamp, now: Timestamp, span: Duration) -> bool {
        match self {
            Boundary::Inclusive => time@ <= now@ - span@,
            Boundary::Exclusive => time@ < now@ - span@,
        }
    }

    /// Whether an observation made at `time` has aged out of a window of
    /// length `span` once the clock reads `now`.
    pub fn is_stale(&self, time: &Timestamp, now: &Timestamp, span: &Duration) -> (r: bool)
        ensures
            r == self.stale(*time, *now, *span),
    {
        match self {
            Boundary::Inclusive => time.not_after(now, span),
            Boundary::Exclusive => time.before(now, span),
        }
    }
}

/// How many observations at the front of `w` are stale, up to the first one
/// that is not.
pub open spec fn stale_prefix<V>(
    w: Seq<Observation<V>>,
    now: Timestamp,
    span: Duration,
    edge: Boundary,
) -> nat
    decreases w.len(),
{
    if w.len() > 0 && edge.stale(w[0].time, now, span) {
        1 + stale_prefix(w.skip(1), now, span, edge)
    } else {
        0
    }
}

/// The observations that leave `w` when the clock reads `now`.
pub open spec fn expired<V>(
    w: Seq<Observation<V>>,
    now: Timestamp,
    span: Duration,
    edge: Boundary,
) -> Seq<Observation<V>> {
    w.take(stale_prefix(w, now, span, edge) as int)
}

/// The observations that stay in `w` when the clock reads `now`.
pub open spec fn retained<V>(
    w: Seq<Observation<V>>,
    now: Timestamp,
    span: Duration,
    edge: Boundary,
) -> Seq<Observation<V>> {
    w.skip(stale_prefix(w, now, span, edge) as int)
}

/// The window after the observation `(now, value)` has come in: the stale
/// front is gone and the new observation stands at the back.
pub open spec fn admitted<V>(
    w: Seq<Observation<V>>,
    now: Timestamp,
    value: V,
    span: Duration,
    edge: Boundary,
) -> Seq<Observation<V>> {
    retained(w, now, span, edge).push(Observation { time: now, value })
}

/// The window that is left of a whole input sequence fed in order to an empty
/// window.
pub open spec fn replayed<V>(inputs: Seq<Observation<V>>, span: Duration, edge: Boundary) -> Seq<
    Observation<V>,
>
    decreases inputs.len(),
{
    if inputs.len() == 0 {
        Seq::empty()
    } else {
        admitted(
            replayed(inputs.drop_last(), span, edge),
            inputs.last().time,
            inputs.last().value,
            span,
            edge,
        )
    }
}

/// No observation in `w` is later than one that follows it.
pub open spec fn in_order<V>(w: Seq<Observation<V>>) -> bool {
    forall|i: int, j: int| 0 <= i <= j < w.len() ==> w[i].time@ <= w[j].time@
}

/// No observation in `w` is stale when the clock reads `now`.
pub open spec fn within<V>(
    w: Seq<Observation<V>>,
    now: Timestamp,
    span: Duration,
    edge: Boundary,
) -> bool {
    forall|i: int| 0 <= i < w.len() ==> !edge.stale(#[trigger] w[i].time, now, span)
}

/// The stale prefix is the longest run of stale observations at the front.
pub proof fn stale_prefix_is_longest<V>(
    w: Seq<Observation<V>>,
    now: Timestamp,
    span: Duration,
    edge: Boundary,
)
    ensures
        stale_prefix(w, now, span, edge) <= w.len(),
        forall|i: int|
            0 <= i < stale_prefix(w, now, span, edge) ==> edge.stale(
                #[trigger] w[i].time,
                now,
                span,
            ),
        stale_prefix(w, now, span, edge) < w.len() ==> !edge.stale(
            w[stale_prefix(w, now, span, edge) as int].time,
            now,
            span,
        ),
    decreases w.len(),
{
    if w.len() > 0 && edge.stale(w[0].time, now, span) {
        let rest = w.skip(1);
        stale_prefix_is_longest(rest, now, span, edge);
        let k = stale_prefix(rest, now, span, edge) as int;
        assert forall|i: int| 0 <= i < k + 1 implies edge.stale(
            #[trigger] w[i].time,
            now,
            span,
        ) by {
            if i > 0 {
                assert(w[i] == rest[i - 1]);
            }
        }
        if k + 1 < w.len() {
            assert(w[k + 1] == rest[k]);
        }
    }
}

/// Fed an observation that is no earlier than any before it, a window that
/// was in order stays in order, and nothing in it is older than the duration
/// relative to that observation.
pub proof fn admitted_stays_bounded<V>(
    w: Seq<Observation<V>>,
    now: Timestamp,
    value: V,
    span: Duration,
    edge: Boundary,
)
    requires
        span@ > 0,
        in_order(w),
        w.len() > 0 ==> w.last().time@ <= now@,
    ensures
        in_order(admitted(w, now, value, span, edge)),
        within(admitted(w, now, value, span, edge), now, span, edge),
        admitted(w, now, value, span, edge).last().time == now,
{
    stale_prefix_is_longest(w, now, span, edge);
    let k = stale_prefix(w, now, span, edge) as int;
    let kept = retained(w, now, span, edge);
    let next = admitted(w, now, value, span, edge);
    assert forall|i: int| 0 <= i < kept.len() implies w[k].time@ <= (#[trigger] kept[i]).time@
        && kept[i].time@ <= now@ by {
        assert(kept[i] == w[k + i]);
        assert(w[k + i].time@ <= w.last().time@);
    }
    assert forall|i: int, j: int| 0 <= i <= j < next.len() implies next[i].time@
        <= next[j].time@ by {
        if j < kept.len() {
            assert(next[i] == w[k + i]);
            assert(next[j] == w[k + j]);
        } else if i < kept.len() {
            assert(next[i] == kept[i]);
        }
    }
    assert forall|i: int| 0 <= i < next.len() implies !edge.stale(
        #[trigger] next[i].time,
        now,
        span,
    ) by {
        if i < kept.len() {
            assert(next[i] == kept[i]);
        }
    }
}

/// Boundedness: after any inputs whose timestamps never go back, the window
/// is in order and holds nothing older than the duration relative to the most
/// recent input.
pub proof fn replayed_window_is_bounded<V>(
    inputs: Seq<Observation<V>>,
    span: Duration,
    edge: Boundary,
)
    requires
        span@ > 0,
        in_order(inputs),
        inputs.len() > 0,
    ensures
        in_order(replayed(inputs, span, edge)),
        within(replayed(inputs, span, edge), inputs.last().time, span, edge),
        replayed(inputs, span, edge).len() > 0,
        replayed(inputs, span, edge).last().time == inputs.last().time,
    decreases inputs.len(),
{
    let before = inputs.drop_last();
    if before.len() > 0 {
        assert(in_order(before)) by {
            assert forall|i: int, j: int| 0 <= i <= j < before.len() implies before[i].time@
                <= before[j].time@ by {
                assert(before[i] == inputs[i] && before[j] == inputs[j]);
            }
        }
        replayed_window_is_bounded(before, span, edge);
        assert(before.last() == inputs[inputs.len() - 2]);
    }
    admitted_stays_bounded(
        replayed(before, span, edge),
        inputs.last().time,
        inputs.last().value,
        span,
        edge,
    );
}

/// A buffer of observations in arrival order, bounded by a rolling duration:
/// new observations come in at the back, stale ones leave at the front.
pub struct TimeWindow<V> {
    duration: Duration,
    items: VecDeque<Observation<V>>,
}

impl<V> View for TimeWindow<V> {
    type V = Seq<Observation<V>>;

    closed spec fn view(&self) -> Seq<Observation<V>> {
        self.items@
    }
}

impl<V> TimeWindow<V> {
    /// The length of the window in time.
    pub closed spec fn spec_duration(&self) -> Duration {
        self.duration
    }
}

impl<V: Copy> TimeWindow<V> {
    /// An empty window of length `duration`. A duration that is not positive
    /// is refused.
    pub fn new(duration: Duration) -> (r: Result<Self, TaError>)
        ensures
            duration@ > 0 <==> r is Ok,
            r is Err ==> r == Err::<Self, TaError>(TaError::InvalidParameter),
            r is Ok ==> r.unwrap()@ == Seq::<Observation<V>>::empty(),
            r is Ok ==> r.unwrap().spec_duration() == duration,
    {
        if duration.is_positive() {
            Ok(TimeWindow { duration, items: VecDeque::new() })
        } else {
            Err(TaError::InvalidParameter)
        }
    }

    /// The length of the window in time.
    pub fn duration(&self) -> (r: Duration)
        ensures
            r == self.spec_duration(),
    {
        self.duration
    }

    /// The number of observations in the window.
    pub fn len(&self) -> (r: usize)
        ensures
            r == self@.len(),
    {
        self.items.len()
    }

    /// Whether the window holds no observation.
    pub fn is_empty(&self) -> (r: bool)
        ensures
            r == (self@.len() == 0),
    {
        self.items.len() == 0
    }

    /// The observation at position `i`, counted from the oldest.
    pub fn get(&self, i: usize) -> (r: Observation<V>)
        requires
            i < self@.len(),
        ensures
            r == self@[i as int],
    {
        self.items[i]
    }

    /// The oldest observation in the window.
    pub fn front(&self) -> (r: Option<Observation<V>>)
        ensures
            self@.len() == 0 <==> r is None,
            r is Some ==> r.unwrap() == self@.first(),
    {
        if self.items.len() == 0 {
            None
        } else {
            Some(self.items[0])
        }
    }

    /// The newest observation in the window.
    pub fn back(&self) -> (r: Option<Observation<V>>)
        ensures
            self@.len() == 0 <==> r is None,
            r is Some ==> r.unwrap() == self@.last(),
    {
        let n = self.items.len();
        if n == 0 {
            None
        } else {
            Some(self.items[n - 1])
        }
    }

    /// Appends an observation at the back. Nothing is evicted: a caller
    /// evicts first, with the new observation's timestamp.
    pub fn push(&mut self, time: Timestamp, value: V)
        ensures
            final(self)@ == old(self)@.push(Observation { time, value }),
            final(self).spec_duration() == old(self).spec_duration(),
    {
        self.items.push_back(Observation { time, value });
    }

    /// Removes the stale observations from the front, up to the first that is
    /// not stale at `now` under the rule `edge`, and returns them oldest
    /// first.
    pub fn evict_older_than(&mut self, now: Timestamp, edge: Boundary) -> (gone: Vec<
        Observation<V>,
    >)
        ensures
            gone@ == expired(old(self)@, now, old(self).spec_duration(), edge),
            final(self)@ == retained(old(self)@, now, old(self).spec_duration(), edge),
            final(self).spec_duration() == old(self).spec_duration(),
    {
        let mut gone: Vec<Observation<V>> = Vec::new();
        let ghost start = self.items@;
        let ghost span = self.duration;
        while self.items.len() > 0 && edge.is_stale(&self.items[0].time, &now, &self.duration)
            invariant
                self.duration == span,
                gone@.len() <= start.len(),
                gone@ == start.take(gone@.len() as int),
                self.items@ == start.skip(gone@.len() as int),
                stale_prefix(start, now, span, edge) == gone@.len() + stale_prefix(
                    self.items@,
                    now,
                    span,
                    edge,
                ),
            decreases self.items@.len(),
        {
            let ghost before = self.items@;
            let ghost n = gone@.len() as int;
            let first = self.items.pop_front();
            match first {
                Some(o) => {
                    gone.push(o);
                    proof {
                        assert(self.items@ =~= before.skip(1));
                        assert(start.skip(n).skip(1) =~= start.skip(n + 1));
                        assert(start.take(n).push(start[n]) =~= start.take(n + 1));
                        assert(before[0] == start[n]);
                    }
                },
                None => {},
            }
        }
        gone
    }

    /// Empties the window. The duration stays.
    pub fn clear(&mut self)
        ensures
            final(self)@ == Seq::<Observation<V>>::empty(),
            final(self).spec_duration() == old(self).spec_duration(),
    {
        self.items.clear();
    }
}

} // verus!

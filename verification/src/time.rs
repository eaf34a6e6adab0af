use vstd::prelude::*;
use vstd::string::StringExecFns;
use crate::text::{decimal, push_decimal};

verus! {

pub const NANOS_PER_SEC: u32 = 1_000_000_000;

pub const SECS_PER_DAY: i64 = 86_400;

/// An instant on the UTC time line: whole seconds since the Unix epoch and
/// the nanoseconds into that second.
#[derive(Debug, Clone, Copy, PartialEq, Eq, Structural)]
pub struct Timestamp {
    secs: i64,
    nanos: u32,
}

/// A signed span of time: whole seconds, rounded down, and the nanoseconds
/// above them.
#[derive(Debug, Clone, Copy, PartialEq, Eq, Structural)]
pub struct Duration {
    secs: i64,
    nanos: u32,
}

impl View for Timestamp {
    type V = int;

    /// Nanoseconds since the Unix epoch.
    open spec fn view(&self) -> int {
        self.spec_secs() * 1_000_000_000 + self.spec_subsec_nanos()
    }
}

impl View for Duration {
    type V = int;

    /// The span in nanoseconds.
    open spec fn view(&self) -> int {
        self.spec_secs() * 1_000_000_000 + self.spec_subsec_nanos()
    }
}

impl Timestamp {
    /// Whole seconds since the epoch, rounded down.
    pub closed spec fn spec_secs(&self) -> int {
        self.secs as int
    }

    /// Nanoseconds into the second.
    pub closed spec fn spec_subsec_nanos(&self) -> int {
        self.nanos as int
    }

    #[verifier::type_invariant]
    spec fn well_formed(&self) -> bool {
        self.nanos < NANOS_PER_SEC
    }

    /// The instant `nanos` nanoseconds after the whole second `secs`, or
    /// `None` where `nanos` is a second or more.
    pub fn new(secs: i64, nanos: u32) -> (r: Option<Timestamp>)
        ensures
            nanos < NANOS_PER_SEC <==> r is Some,
            r is Some ==> r.unwrap()@ == secs * 1_000_000_000 + nanos,
            r is Some ==> r.unwrap().spec_secs() == secs && r.unwrap().spec_subsec_nanos()
                == nanos,
    {
        if nanos < NANOS_PER_SEC {
            Some(Timestamp { secs, nanos })
        } else {
            None
        }
    }

    /// The instant at the start of the whole second `secs`.
    pub fn from_secs(secs: i64) -> (r: Timestamp)
        ensures
            r@ == secs * 1_000_000_000,
            r.spec_secs() == secs,
            r.spec_subsec_nanos() == 0,
    {
        Timestamp { secs, nanos: 0 }
    }

    /// Whole seconds since the epoch, rounded down.
    pub fn secs(&self) -> (r: i64)
        ensures
            r == self.spec_secs(),
    {
        self.secs
    }

    /// Nanoseconds into the second.
    pub fn subsec_nanos(&self) -> (r: u32)
        ensures
            r == self.spec_subsec_nanos(),
            r < NANOS_PER_SEC,
    {
        proof {
            use_type_invariant(self);
        }
        self.nanos
    }

    /// Whether `self` lies at or before the instant `span` earlier than `now`.
    pub fn not_after(&self, now: &Timestamp, span: &Duration) -> (r: bool)
        ensures
            r == (self@ <= now@ - span@),
    {
        self.total() <= now.total() - span.total()
    }

    /// Whether `self` lies before the instant `span` earlier than `now`.
    pub fn before(&self, now: &Timestamp, span: &Duration) -> (r: bool)
        ensures
            r == (self@ < now@ - span@),
    {
        self.total() < now.total() - span.total()
    }

    fn total(&self) -> (r: i128)
        ensures
            r == self@,
            -9_223_372_036_854_775_808_000_000_000 <= r < 9_223_372_036_854_775_808_000_000_000,
    {
        proof {
            use_type_invariant(self);
        }
        (self.secs as i128) * 1_000_000_000 + (self.nanos as i128)
    }
}

impl Duration {
    /// Whole seconds in the span, rounded down.
    pub closed spec fn spec_secs(&self) -> int {
        self.secs as int
    }

    /// Nanoseconds above the whole seconds.
    pub closed spec fn spec_subsec_nanos(&self) -> int {
        self.nanos as int
    }

    #[verifier::type_invariant]
    spec fn well_formed(&self) -> bool {
        self.nanos < NANOS_PER_SEC
    }

    /// Whole seconds in the span, rounded toward zero.
    pub open spec fn spec_num_seconds(&self) -> int {
        if self.spec_secs() < 0 && self.spec_subsec_nanos() > 0 {
            self.spec_secs() + 1
        } else {
            self.spec_secs()
        }
    }

    /// Whole days in the span, rounded toward zero.
    pub open spec fn spec_num_days(&self) -> int {
        let s = self.spec_num_seconds();
        if s >= 0 {
            s / 86_400
        } else {
            -((-s) / 86_400)
        }
    }

    /// The span of `secs` whole seconds and `nanos` nanoseconds, or `None`
    /// where `nanos` is a second or more.
    pub fn new(secs: i64, nanos: u32) -> (r: Option<Duration>)
        ensures
            nanos < NANOS_PER_SEC <==> r is Some,
            r is Some ==> r.unwrap()@ == secs * 1_000_000_000 + nanos,
            r is Some ==> r.unwrap().spec_secs() == secs && r.unwrap().spec_subsec_nanos()
                == nanos,
    {
        if nanos < NANOS_PER_SEC {
            Some(Duration { secs, nanos })
        } else {
            None
        }
    }

    /// The span of `secs` whole seconds.
    pub closed spec fn of_seconds(secs: i64) -> Duration {
        Duration { secs, nanos: 0 }
    }

    /// The span as the debug format of a struct of this name shows it, with
    /// its whole seconds and the nanoseconds above them.
    pub open spec fn debug_text(&self) -> Seq<char> {
        "Duration { secs: "@ + decimal(self.spec_secs()) + ", nanos: "@ + decimal(
            self.spec_subsec_nanos(),
        ) + " }"@
    }

    /// The span in short: the whole seconds and `s`, and, where there are
    /// nanoseconds above them, `+`, their count and `ns`.
    pub open spec fn text(&self) -> Seq<char> {
        if self.spec_subsec_nanos() == 0 {
            decimal(self.spec_secs()) + "s"@
        } else {
            decimal(self.spec_secs()) + "s+"@ + decimal(self.spec_subsec_nanos()) + "ns"@
        }
    }

    /// A span of `secs` whole seconds.
    pub fn seconds(secs: i64) -> (r: Duration)
        ensures
            r == Self::of_seconds(secs),
            r@ == secs * 1_000_000_000,
            r.spec_secs() == secs,
            r.spec_subsec_nanos() == 0,
    {
        Duration { secs, nanos: 0 }
    }

    /// A span of `days` days of 86 400 seconds.
    pub fn days(days: i64) -> (r: Duration)
        requires
            i64::MIN <= days * 86_400 <= i64::MAX,
        ensures
            r == Self::of_seconds((days * 86_400) as i64),
            r@ == days * 86_400 * 1_000_000_000,
            r.spec_secs() == days * 86_400,
            r.spec_subsec_nanos() == 0,
    {
        Duration { secs: days * SECS_PER_DAY, nanos: 0 }
    }

    /// Whether the span is longer than nothing.
    pub fn is_positive(&self) -> (r: bool)
        ensures
            r == (self@ > 0),
    {
        proof {
            use_type_invariant(self);
        }
        self.secs > 0 || (self.secs == 0 && self.nanos > 0)
    }

    /// Whole seconds in the span, rounded toward zero.
    pub fn num_seconds(&self) -> (r: i64)
        ensures
            r == self.spec_num_seconds(),
    {
        if self.secs < 0 && self.nanos > 0 {
            self.secs + 1
        } else {
            self.secs
        }
    }

    /// Whole days in the span, rounded toward zero.
    pub fn num_days(&self) -> (r: i64)
        ensures
            r == self.spec_num_days(),
            r >= 1 ==> self@ > 0,
    {
        proof {
            use_type_invariant(self);
        }
        let s = self.num_seconds();
        if s >= 0 {
            s / SECS_PER_DAY
        } else if s == i64::MIN {
            -106_751_991_167_300
        } else {
            -((-s) / SECS_PER_DAY)
        }
    }

    /// The span as [`Duration::debug_text`] gives it.
    pub fn debug_label(&self) -> (r: String)
        ensures
            r@ == self.debug_text(),
    {
        let mut out = String::new();
        out.append("Duration { secs: ");
        push_decimal(&mut out, self.secs);
        out.append(", nanos: ");
        push_decimal(&mut out, self.nanos as i64);
        out.append(" }");
        proof {
            assert(out@ =~= self.debug_text());
        }
        out
    }

    /// The span as [`Duration::text`] gives it.
    pub fn label(&self) -> (r: String)
        ensures
            r@ == self.text(),
    {
        let mut out = String::new();
        push_decimal(&mut out, self.secs);
        if self.nanos == 0 {
            out.append("s");
        } else {
            out.append("s+");
            push_decimal(&mut out, self.nanos as i64);
            out.append("ns");
        }
        proof {
            assert(out@ =~= self.text());
        }
        out
    }

    /// Nanoseconds above the whole seconds.
    pub fn subsec_nanos(&self) -> (r: u32)
        ensures
            r == self.spec_subsec_nanos(),
            r < NANOS_PER_SEC,
    {
        proof {
            use_type_invariant(self);
        }
        self.nanos
    }

    fn total(&self) -> (r: i128)
        ensures
            r == self@,
            -9_223_372_036_854_775_808_000_000_000 <= r < 9_223_372_036_854_775_808_000_000_000,
    {
        proof {
            use_type_invariant(self);
        }
        (self.secs as i128) * 1_000_000_000 + (self.nanos as i128)
    }
}

} // verus!

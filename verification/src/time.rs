//! Points in time, and how they are shown.
use vstd::prelude::*;
use vstd::string::*;
use crate::text;

verus! {

/// The first second that a moment can lie in.
pub const FIRST_SECOND: i64 = -8_334_601_228_800;

/// The last second that a moment can lie in.
pub const LAST_SECOND: i64 = 8_210_266_876_799;

/// A point in time: seconds since the Unix epoch, and nanoseconds within the second.
#[derive(Clone, Copy, Debug, PartialEq, Eq, Structural)]
pub struct Moment {
    secs: i64,
    nanos: u32,
}

/// Whether a moment can lie in this second and nanosecond.
pub open spec fn representable(secs: int, nanos: int) -> bool {
    FIRST_SECOND <= secs <= LAST_SECOND && 0 <= nanos < 1_000_000_000
}

/// Calls `chrono::DateTime::from_timestamp`: there is a moment for every second from
/// January 1 of the year -262143 to December 31 of the year 262142 and every
/// nanosecond below 10^9, and it keeps both. Nanoseconds from 2 * 10^9 on are
/// always refused; those between, which stand for leap seconds, are not handed over.
#[verifier::external_body]
fn from_timestamp(secs: i64, nanos: u32) -> (r: Option<(i64, u32)>)
    requires
        nanos < 1_000_000_000 || nanos >= 2_000_000_000,
    ensures
        r == if representable(secs as int, nanos as int) {
            Some((secs, nanos))
        } else {
            None
        },
{
    match chrono::DateTime::from_timestamp(secs, nanos) {
        Some(t) => Some((t.timestamp(), t.timestamp_subsec_nanos())),
        None => None,
    }
}

/// The moment at a second and nanosecond.
pub closed spec fn moment(secs: int, nanos: int) -> Moment {
    Moment { secs: secs as i64, nanos: nanos as u32 }
}

/// A moment lies where it was said to.
pub proof fn lemma_moment(secs: int, nanos: int)
    requires
        representable(secs, nanos),
    ensures
        moment(secs, nanos).secs() == secs,
        moment(secs, nanos).nanos() == nanos,
{
}

impl Moment {
    #[verifier::type_invariant]
    spec fn valid(self) -> bool {
        representable(self.secs as int, self.nanos as int)
    }

    /// The second that the moment lies in.
    pub closed spec fn secs(self) -> int {
        self.secs as int
    }

    /// The nanosecond within that second.
    pub closed spec fn nanos(self) -> int {
        self.nanos as int
    }

    /// The nanoseconds since the epoch.
    pub open spec fn stamp(self) -> int {
        self.secs() * 1_000_000_000 + self.nanos()
    }

    /// The moment at a second and nanosecond, where there is one.
    pub fn at(secs: i64, nanos: u32) -> (r: Option<Moment>)
        requires
            nanos < 1_000_000_000 || nanos >= 2_000_000_000,
        ensures
            r is Some <==> representable(secs as int, nanos as int),
            r is Some ==> r->0 == moment(secs as int, nanos as int),
            r is Some ==> r->0.secs() == secs && r->0.nanos() == nanos,
    {
        match from_timestamp(secs, nanos) {
            Some((s, n)) => Some(Moment { secs: s, nanos: n }),
            None => None,
        }
    }

    /// The start of January 1, 1970.
    pub fn epoch() -> (r: Moment)
        ensures
            r == moment(0, 0),
            r.secs() == 0,
            r.nanos() == 0,
    {
        Moment { secs: 0, nanos: 0 }
    }

    /// Whether this moment is `other` or later.
    pub fn at_or_after(&self, other: &Moment) -> (b: bool)
        ensures
            b == (self.stamp() >= other.stamp()),
    {
        proof {
            use_type_invariant(self);
            use_type_invariant(other);
        }
        self.secs > other.secs || (self.secs == other.secs && self.nanos >= other.nanos)
    }

    /// The nanoseconds since the epoch.
    pub fn nanoseconds(&self) -> (r: i128)
        ensures
            r == self.stamp(),
            -10_000_000_000_000_000_000_000_000_000 < r < 10_000_000_000_000_000_000_000_000_000,
    {
        self.secs as i128 * 1_000_000_000 + self.nanos as i128
    }

    /// The whole milliseconds since the epoch.
    pub fn millis(&self) -> (r: i64)
        ensures
            r == self.stamp() / 1_000_000,
    {
        proof {
            use_type_invariant(self);
        }
        assert((self.secs * 1_000_000_000 + self.nanos) / 1_000_000 == self.secs * 1000 + self.nanos
            / 1_000_000);
        self.secs * 1000 + (self.nanos / 1_000_000) as i64
    }

    /// The whole seconds from `earlier` to this moment, rounded towards zero.
    pub fn seconds_since(&self, earlier: &Moment) -> (r: i64)
        ensures
            r == whole_seconds(self.stamp() - earlier.stamp()),
            r > i64::MIN,
    {
        proof {
            use_type_invariant(self);
            use_type_invariant(earlier);
        }
        let secs: i64 = self.secs - earlier.secs;
        if secs >= 0 && self.nanos < earlier.nanos && secs > 0 {
            secs - 1
        } else if secs < 0 && self.nanos > earlier.nanos {
            secs + 1
        } else {
            secs
        }
    }
}

/// A number of nanoseconds in whole seconds, rounded towards zero.
pub open spec fn whole_seconds(nanos: int) -> int {
    if nanos >= 0 {
        nanos / 1_000_000_000
    } else {
        -((-nanos) / 1_000_000_000)
    }
}

/// Two decimal digits.
pub open spec fn two_digits(n: int) -> Seq<char> {
    seq![text::digit((n / 10) as nat), text::digit((n % 10) as nat)]
}

/// The time of day, in hours, minutes and seconds.
pub open spec fn clock(secs: int) -> Seq<char> {
    let s = secs % 86_400;
    two_digits(s / 3600) + seq![':'] + two_digits(s / 60 % 60) + seq![':'] + two_digits(s % 60)
}

/// Appends two digits to a text.
fn push_two_digits(s: &mut String, n: i64)
    requires
        0 <= n < 100,
    ensures
        final(s)@ == old(s)@ + two_digits(n as int),
{
    s.push(text::digit_char((n / 10) as u64));
    s.push(text::digit_char((n % 10) as u64));
    assert(s@ =~= old(s)@ + two_digits(n as int));
}

/// See [`clock`].
pub fn clock_text(t: &Moment) -> (r: String)
    ensures
        r@ == clock(t.secs()),
{
    proof {
        use_type_invariant(t);
    }
    let s: i64 = (t.secs + 8_640_000_000_000) % 86_400;
    assert(s == t.secs() % 86_400);
    let mut r: String = String::new();
    push_two_digits(&mut r, s / 3600);
    r.push(':');
    push_two_digits(&mut r, s / 60 % 60);
    r.push(':');
    push_two_digits(&mut r, s % 60);
    assert(r@ =~= clock(t.secs()));
    r
}

/// A span of seconds in minutes and seconds, both rounded towards zero.
pub open spec fn span(secs: int) -> Seq<char> {
    if secs >= 0 {
        text::decimal(secs / 60) + seq!['m'] + text::decimal(secs % 60) + seq!['s']
    } else {
        text::decimal(-((-secs) / 60)) + seq!['m'] + text::decimal(-((-secs) % 60)) + seq!['s']
    }
}

/// See [`span`].
pub fn span_text(secs: i64) -> (r: String)
    requires
        secs > i64::MIN,
    ensures
        r@ == span(secs as int),
{
    let size: i64 = if secs >= 0 {
        secs
    } else {
        -secs
    };
    let minutes: i64 = if secs >= 0 {
        size / 60
    } else {
        -(size / 60)
    };
    let rest: i64 = if secs >= 0 {
        size % 60
    } else {
        -(size % 60)
    };
    let mut r: String = text::decimal_text(minutes);
    r.push('m');
    r.append(text::decimal_text(rest).as_str());
    r.push('s');
    assert(r@ =~= span(secs as int));
    r
}

} // verus!

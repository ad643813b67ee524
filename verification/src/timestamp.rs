//! Points in time on the UTC time line.
use vstd::prelude::*;

verus! {

/// The first second that a date can hold: the beginning of the year -262143.
pub const MIN_SECS: i64 = -8_334_601_228_800;

/// The last second that a date can hold: the end of the year 262142.
pub const MAX_SECS: i64 = 8_210_266_876_799;

/// A point in time: whole seconds since the epoch, and nanoseconds beyond them. In a leap second
/// there are more than a thousand million of the latter.
#[derive(Clone, Copy, Debug)]
pub struct Timestamp {
    secs: i64,
    nanos: u32,
}

impl View for Timestamp {
    type V = (int, int);

    closed spec fn view(&self) -> (int, int) {
        (self.secs as int, self.nanos as int)
    }
}

/// The view of a point in time that may be missing.
pub open spec fn moment(t: Option<Timestamp>) -> Option<(int, int)> {
    match t {
        Some(t) => Some(t@),
        None => None,
    }
}

/// Seconds and nanoseconds that a `Timestamp` can hold: a leap second is the last of a minute.
pub open spec fn in_range(secs: int, nanos: int) -> bool {
    &&& MIN_SECS <= secs <= MAX_SECS
    &&& 0 <= nanos < 1_000_000_000 || (secs % 60 == 59 && 0 <= nanos < 2_000_000_000)
}

/// The earlier or the same point in time.
pub open spec fn no_later(a: (int, int), b: (int, int)) -> bool {
    a.0 < b.0 || (a.0 == b.0 && a.1 <= b.1)
}

/// The point in time `secs` seconds after the epoch, where a date can hold it.
pub open spec fn at_secs(secs: int) -> Option<(int, int)> {
    if MIN_SECS <= secs <= MAX_SECS {
        Some((secs, 0))
    } else {
        None
    }
}

/// The point in time `millis` milliseconds after the epoch, where a date can hold it.
pub open spec fn at_millis(millis: int) -> Option<(int, int)> {
    if MIN_SECS <= millis / 1000 <= MAX_SECS {
        Some((millis / 1000, millis % 1000 * 1_000_000))
    } else {
        None
    }
}

/// The milliseconds from the epoch to a point in time, rounded down.
pub open spec fn millis_of(t: (int, int)) -> int {
    t.0 * 1000 + t.1 / 1_000_000
}

/// What `DateTime::to_rfc3339` writes for seconds and nanoseconds of UTC.
pub uninterp spec fn rfc3339_text(secs: int, nanos: int) -> Seq<char>;

/// What `DateTime::parse_from_rfc3339` reads, in UTC: seconds and nanoseconds.
pub uninterp spec fn rfc3339(s: Seq<char>) -> Option<(int, int)>;

/// `chrono::DateTime::from_timestamp` without nanoseconds: there is such a point in time where its
/// second lies within the years that chrono's dates hold, from -262143 to 262142.
#[verifier::external_body]
pub(crate) fn timestamp_from_secs(secs: i64) -> (r: Option<Timestamp>)
    ensures
        moment(r) == at_secs(secs as int),
{
    chrono::DateTime::from_timestamp(secs, 0).map(
        |t| Timestamp { secs: t.timestamp(), nanos: t.timestamp_subsec_nanos() },
    )
}

/// `chrono::DateTime::from_timestamp_millis`: the milliseconds are divided into seconds, rounded
/// down, and the rest; there is such a point in time where the second lies within chrono's years.
#[verifier::external_body]
pub(crate) fn timestamp_from_millis(millis: i64) -> (r: Option<Timestamp>)
    ensures
        moment(r) == at_millis(millis as int),
{
    chrono::DateTime::from_timestamp_millis(millis).map(
        |t| Timestamp { secs: t.timestamp(), nanos: t.timestamp_subsec_nanos() },
    )
}

/// `chrono::DateTime::parse_from_rfc3339`, taken as UTC: what it reads is a function of the text.
#[verifier::external_body]
pub(crate) fn timestamp_from_rfc3339(value: &str) -> (r: Option<Timestamp>)
    ensures
        moment(r) == rfc3339(value@),
{
    chrono::DateTime::parse_from_rfc3339(value).ok().map(
        |t| Timestamp { secs: t.timestamp(), nanos: t.timestamp_subsec_nanos() },
    )
}

/// `chrono::DateTime::to_rfc3339` in UTC: what it writes is a function of the point in time.
#[verifier::external_body]
pub(crate) fn timestamp_to_rfc3339(t: &Timestamp) -> (r: String)
    ensures
        r@ == rfc3339_text(t@.0, t@.1),
{
    chrono::DateTime::from_timestamp(t.secs, t.nanos).unwrap_or_default().to_rfc3339()
}

impl Timestamp {
    #[verifier::type_invariant]
    spec fn well_formed(self) -> bool {
        in_range(self.secs as int, self.nanos as int)
    }

    /// The point in time, where a date can hold it.
    pub fn new(secs: i64, nanos: u32) -> (r: Option<Self>)
        ensures
            moment(r) == (if in_range(secs as int, nanos as int) {
                Some((secs as int, nanos as int))
            } else {
                None
            }),
    {
        let second: i64 = if secs >= 0 {
            secs % 60
        } else {
            59 - (-1 - secs) % 60
        };
        if MIN_SECS <= secs && secs <= MAX_SECS && (nanos < 1_000_000_000 || (second == 59 && nanos
            < 2_000_000_000)) {
            Some(Timestamp { secs, nanos })
        } else {
            None
        }
    }

    pub fn secs(&self) -> (r: i64)
        ensures
            r == self@.0,
            MIN_SECS <= r <= MAX_SECS,
    {
        proof {
            use_type_invariant(self);
        }
        self.secs
    }

    pub fn nanos(&self) -> (r: u32)
        ensures
            r == self@.1,
            r < 2_000_000_000,
    {
        proof {
            use_type_invariant(self);
        }
        self.nanos
    }

    /// The milliseconds since the epoch, rounded down.
    pub fn timestamp_millis(&self) -> (r: i64)
        ensures
            r == millis_of(self@),
    {
        proof {
            use_type_invariant(self);
        }
        self.secs * 1000 + (self.nanos / 1_000_000) as i64
    }

    /// This point in time or an earlier one than `other`.
    pub fn no_later_than(&self, other: &Self) -> (r: bool)
        ensures
            r == no_later(self@, other@),
    {
        self.secs < other.secs || (self.secs == other.secs && self.nanos <= other.nanos)
    }

    /// The point in time `secs` seconds later.
    pub fn plus_seconds(&self, secs: i64) -> (r: Self)
        requires
            0 <= secs,
            self@.0 + secs <= MAX_SECS,
            self@.1 < 1_000_000_000,
        ensures
            r@ == (self@.0 + secs, self@.1),
    {
        proof {
            use_type_invariant(self);
        }
        Timestamp { secs: self.secs + secs, nanos: self.nanos }
    }
}

/// A point in time that was turned into milliseconds and back is the same, rounded down to the
/// millisecond. A leap second becomes the first of the next minute, where a date can hold that.
pub proof fn lemma_millis_round_trip(t: (int, int))
    requires
        in_range(t.0, t.1),
    ensures
        t.1 < 1_000_000_000 ==> at_millis(millis_of(t)) == Some(
            (t.0, t.1 / 1_000_000 * 1_000_000),
        ),
        t.1 >= 1_000_000_000 && t.0 < MAX_SECS ==> at_millis(millis_of(t)) == Some(
            (t.0 + 1, (t.1 - 1_000_000_000) / 1_000_000 * 1_000_000),
        ),
{
}

} // verus!

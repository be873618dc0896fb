//! Instants on the UTC timeline, held as nanoseconds since the Unix epoch,
//! and the durations between them as computed by `jiff`.

use vstd::prelude::*;

verus! {

/// The earliest instant that `jiff::Timestamp` represents, in nanoseconds
/// since the Unix epoch (-377705023201 seconds).
pub const MIN_NANOSECOND: i128 = -377_705_023_201_000_000_000i128;

/// The latest instant that `jiff::Timestamp` represents, in nanoseconds
/// since the Unix epoch (253402207200 seconds and 999999999 nanoseconds).
pub const MAX_NANOSECOND: i128 = 253_402_207_200_999_999_999i128;

/// Nanoseconds in one second.
pub const NANOS_PER_SECOND: i128 = 1_000_000_000i128;

/// Whether `n` nanoseconds since the epoch is an instant `jiff` can hold.
pub open spec fn nanos_in_range(n: int) -> bool {
    MIN_NANOSECOND <= n <= MAX_NANOSECOND
}

/// Division that rounds toward zero, as Rust's `/` on integers does.
pub open spec fn trunc_div(a: int, d: int) -> int
    recommends
        d > 0,
{
    if a >= 0 {
        a / d
    } else {
        -((-a) / d)
    }
}

/// Whole seconds from `earlier` to `later` (nanosecond instants), rounded
/// toward zero; negative when `later` comes first.
pub open spec fn span_seconds(earlier: int, later: int) -> int {
    trunc_div(later - earlier, 1_000_000_000)
}

/// Whole hours from `earlier` to `later`, rounded toward zero.
pub open spec fn span_hours(earlier: int, later: int) -> int {
    trunc_div(span_seconds(earlier, later), 3600)
}

/// Swapping the two instants negates the whole seconds between them.
pub proof fn lemma_span_seconds_antisymmetric(a: int, b: int)
    ensures
        span_seconds(a, b) == -span_seconds(b, a),
{
}

/// An instant, with nanosecond precision, within the range of
/// `jiff::Timestamp`.
#[derive(Clone, Copy, Debug, PartialEq, Eq, Hash)]
pub struct Timestamp {
    nanos: i128,
}

impl View for Timestamp {
    type V = int;

    /// Nanoseconds since the Unix epoch.
    closed spec fn view(&self) -> int {
        self.nanos as int
    }
}

impl Timestamp {
    #[verifier::type_invariant]
    spec fn in_range(self) -> bool {
        nanos_in_range(self.nanos as int)
    }

    /// The instant `nanosecond` nanoseconds after the Unix epoch, or `None`
    /// when `jiff` cannot represent it.
    pub fn from_nanosecond(nanosecond: i128) -> (r: Option<Timestamp>)
        ensures
            r is Some <==> nanos_in_range(nanosecond as int),
            r matches Some(t) ==> t@ == nanosecond,
    {
        if MIN_NANOSECOND <= nanosecond && nanosecond <= MAX_NANOSECOND {
            Some(Timestamp { nanos: nanosecond })
        } else {
            None
        }
    }

    /// The instant `second` whole seconds after the Unix epoch, or `None`
    /// when `jiff` cannot represent it.
    pub fn from_second(second: i64) -> (r: Option<Timestamp>)
        ensures
            r is Some <==> nanos_in_range(second * 1_000_000_000),
            r matches Some(t) ==> t@ == second * 1_000_000_000,
    {
        let n: i128 = (second as i128) * NANOS_PER_SECOND;
        Self::from_nanosecond(n)
    }

    /// Nanoseconds since the Unix epoch.
    pub fn as_nanosecond(&self) -> (r: i128)
        ensures
            r == self@,
            nanos_in_range(r as int),
    {
        proof {
            use_type_invariant(self);
        }
        self.nanos
    }
}

/// Whole seconds from `earlier` to `later`, rounded toward zero.
///
/// Trusted: builds both instants with `jiff::Timestamp::from_nanosecond`
/// (which succeeds on the range that `requires` states) and returns
/// `later.duration_since(earlier).as_secs()`. The contract claims what jiff
/// documents: `duration_since` is the exact signed difference, and `as_secs`
/// is its whole seconds with the fraction dropped toward zero.
#[verifier::external_body]
fn jiff_duration_secs(earlier: i128, later: i128) -> (r: i64)
    requires
        nanos_in_range(earlier as int),
        nanos_in_range(later as int),
    ensures
        r == span_seconds(earlier as int, later as int),
{
    let earlier = jiff::Timestamp::from_nanosecond(earlier).unwrap();
    let later = jiff::Timestamp::from_nanosecond(later).unwrap();
    later.duration_since(earlier).as_secs()
}

/// Whole hours from `earlier` to `later`, rounded toward zero.
///
/// Trusted: builds both instants with `jiff::Timestamp::from_nanosecond`
/// and returns `later.duration_since(earlier).as_hours()`. The contract
/// claims what jiff documents and its source shows: `as_hours` is
/// `as_secs() / 3600` with Rust's division, which rounds toward zero.
#[verifier::external_body]
fn jiff_duration_hours(earlier: i128, later: i128) -> (r: i64)
    requires
        nanos_in_range(earlier as int),
        nanos_in_range(later as int),
    ensures
        r == span_hours(earlier as int, later as int),
{
    let earlier = jiff::Timestamp::from_nanosecond(earlier).unwrap();
    let later = jiff::Timestamp::from_nanosecond(later).unwrap();
    later.duration_since(earlier).as_hours()
}

/// Seconds elapsed from `earlier` to `later`, rounded toward zero
/// (negative when `later` is the earlier instant).
pub fn duration_sec(earlier: Timestamp, later: Timestamp) -> (r: i64)
    ensures
        r == span_seconds(earlier@, later@),
{
    jiff_duration_secs(earlier.as_nanosecond(), later.as_nanosecond())
}

/// Hours elapsed from `earlier` to `later`, rounded toward zero.
pub fn duration_hours(earlier: Timestamp, later: Timestamp) -> (r: i64)
    ensures
        r == span_hours(earlier@, later@),
{
    jiff_duration_hours(earlier.as_nanosecond(), later.as_nanosecond())
}

} // verus!

use vstd::arithmetic::div_mod::{lemma_add_mod_noop, lemma_mod_bound};
use vstd::prelude::*;

verus! {

/// One more than the largest `u64`: the modulus of wrapping `u64` arithmetic.
pub open spec fn word_modulus() -> int {
    0x1_0000_0000_0000_0000
}

/// `x` reduced modulo 2^64, as unsigned wrapping arithmetic leaves it.
pub open spec fn wrapped(x: int) -> u64 {
    (x % word_modulus()) as u64
}

/// The number of seconds in `hours` hours, `minutes` minutes and `seconds`
/// seconds, before any wrapping.
pub open spec fn hms_total(hours: int, minutes: int, seconds: int) -> int {
    hours * 3600 + minutes * 60 + seconds
}

/// A non-negative span of whole seconds.
#[derive(Debug, Clone, Copy, PartialEq, Eq, Structural, Ord, Hash)]
pub struct Duration {
    seconds: u64,
}

/// Why a text could not be read as a duration.
#[derive(Debug, Clone, Copy, PartialEq, Eq, Structural)]
pub enum DurationError {
    /// The text does not split into exactly three `:`-separated fields.
    InvalidFormat,
    /// A field is not a decimal integer that fits in 64 bits, or the
    /// minutes or seconds field is 60 or more.
    InvalidValue,
}

impl Duration {
    /// The number of seconds this duration stands for.
    pub closed spec fn secs(self) -> u64 {
        self.seconds
    }

    /// The duration of `n` seconds.
    pub closed spec fn of_secs(n: u64) -> Duration {
        Duration { seconds: n }
    }

    /// `of_secs(n)` holds `n` seconds.
    pub proof fn lemma_of_secs(n: u64)
        ensures
            Duration::of_secs(n).secs() == n,
    {
    }

    /// The sum in seconds, held at `u64::MAX` when it does not fit.
    pub open spec fn sat_add_secs(a: u64, b: u64) -> u64 {
        if a + b > u64::MAX {
            u64::MAX
        } else {
            (a + b) as u64
        }
    }

    /// The difference in seconds, held at zero when `b` is the larger.
    pub open spec fn sat_sub_secs(a: u64, b: u64) -> u64 {
        if a < b {
            0
        } else {
            (a - b) as u64
        }
    }

    /// Two durations are equal exactly when they hold the same number of seconds.
    pub proof fn lemma_eq_iff_secs(a: Duration, b: Duration)
        ensures
            (a == b) <==> (a.secs() == b.secs()),
    {
    }

    /// Wraps a count of seconds.
    pub fn from_seconds(seconds: u64) -> (r: Duration)
        ensures
            r == Duration::of_secs(seconds),
            r.secs() == seconds,
    {
        Duration { seconds }
    }

    /// `minutes` minutes; the product wraps modulo 2^64 when it does not fit.
    pub fn from_minutes(minutes: u64) -> (r: Duration)
        ensures
            r.secs() == wrapped(minutes * 60),
    {
        Duration { seconds: minutes.wrapping_mul(60) }
    }

    /// `hours` hours; the product wraps modulo 2^64 when it does not fit.
    pub fn from_hours(hours: u64) -> (r: Duration)
        ensures
            r.secs() == wrapped(hours * 3600),
    {
        Duration { seconds: hours.wrapping_mul(3600) }
    }

    /// `hours * 3600 + minutes * 60 + seconds` seconds, with no range check on
    /// the parts; the sum wraps modulo 2^64 when it does not fit.
    pub fn from_hms(hours: u64, minutes: u64, seconds: u64) -> (r: Duration)
        ensures
            r.secs() == wrapped(hms_total(hours as int, minutes as int, seconds as int)),
    {
        let h = hours.wrapping_mul(3600);
        let m = minutes.wrapping_mul(60);
        let hm = h.wrapping_add(m);
        let total = hm.wrapping_add(seconds);
        proof {
            let w = word_modulus();
            let a = hours * 3600;
            let b = minutes * 60;
            assert(h as int == a % w);
            assert(m as int == b % w);
            lemma_add_mod_noop(a, b, w);
            lemma_mod_bound(a + b, w);
            assert(hm as int == (a + b) % w);
            lemma_add_mod_noop(a + b, seconds as int, w);
            assert((seconds as int) % w == seconds as int);
            assert(total as int == (a + b + seconds) % w);
        }
        Duration { seconds: total }
    }

    /// The empty duration.
    pub fn zero() -> (r: Duration)
        ensures
            r.secs() == 0,
    {
        Duration { seconds: 0 }
    }

    /// Total seconds.
    pub fn as_seconds(&self) -> (r: u64)
        ensures
            r == self.secs(),
    {
        self.seconds
    }

    /// Total whole minutes, rounded down.
    pub fn as_minutes(&self) -> (r: u64)
        ensures
            r == self.secs() / 60,
    {
        self.seconds / 60
    }

    /// Total whole hours, rounded down.
    pub fn as_hours(&self) -> (r: u64)
        ensures
            r == self.secs() / 3600,
    {
        self.seconds / 3600
    }

    /// The seconds field of the hours:minutes:seconds reading.
    pub fn seconds_part(&self) -> (r: u64)
        ensures
            r == self.secs() % 60,
            r < 60,
    {
        self.seconds % 60
    }

    /// The minutes field of the hours:minutes:seconds reading.
    pub fn minutes_part(&self) -> (r: u64)
        ensures
            r == (self.secs() % 3600) / 60,
            r < 60,
    {
        (self.seconds % 3600) / 60
    }

    /// The hours field of the hours:minutes:seconds reading: the count of all
    /// whole hours, with no cap, so it equals `as_hours`.
    pub fn hours_part(&self) -> (r: u64)
        ensures
            r == self.secs() / 3600,
    {
        self.seconds / 3600
    }

    /// Whether this duration is empty.
    pub fn is_zero(&self) -> (r: bool)
        ensures
            r == (self.secs() == 0),
    {
        self.seconds == 0
    }

    /// The sum, held at `u64::MAX` when it does not fit.
    pub fn saturating_add(self, other: Duration) -> (r: Duration)
        ensures
            r.secs() == Duration::sat_add_secs(self.secs(), other.secs()),
    {
        Duration { seconds: self.seconds.saturating_add(other.seconds) }
    }

    /// The difference, held at zero when `other` is the longer one.
    pub fn saturating_sub(self, other: Duration) -> (r: Duration)
        ensures
            r.secs() == Duration::sat_sub_secs(self.secs(), other.secs()),
    {
        Duration { seconds: self.seconds.saturating_sub(other.seconds) }
    }
}

impl core::ops::Add for Duration {
    type Output = Duration;

    fn add(self, other: Duration) -> Duration {
        self.saturating_add(other)
    }
}

impl vstd::std_specs::ops::AddSpecImpl for Duration {
    open spec fn obeys_add_spec() -> bool {
        true
    }

    open spec fn add_req(self, rhs: Duration) -> bool {
        true
    }

    open spec fn add_spec(self, rhs: Duration) -> Duration {
        Duration::of_secs(Duration::sat_add_secs(self.secs(), rhs.secs()))
    }
}

impl core::ops::Sub for Duration {
    type Output = Duration;

    fn sub(self, other: Duration) -> Duration {
        self.saturating_sub(other)
    }
}

impl vstd::std_specs::ops::SubSpecImpl for Duration {
    open spec fn obeys_sub_spec() -> bool {
        true
    }

    open spec fn sub_req(self, rhs: Duration) -> bool {
        true
    }

    open spec fn sub_spec(self, rhs: Duration) -> Duration {
        Duration::of_secs(Duration::sat_sub_secs(self.secs(), rhs.secs()))
    }
}

impl PartialOrd for Duration {
    fn partial_cmp(&self, other: &Duration) -> (r: Option<core::cmp::Ordering>) {
        if self.seconds < other.seconds {
            Some(core::cmp::Ordering::Less)
        } else if self.seconds > other.seconds {
            Some(core::cmp::Ordering::Greater)
        } else {
            Some(core::cmp::Ordering::Equal)
        }
    }
}

impl vstd::std_specs::cmp::PartialOrdSpecImpl for Duration {
    open spec fn obeys_partial_cmp_spec() -> bool {
        true
    }

    open spec fn partial_cmp_spec(&self, other: &Duration) -> Option<core::cmp::Ordering> {
        if self.secs() < other.secs() {
            Some(core::cmp::Ordering::Less)
        } else if self.secs() > other.secs() {
            Some(core::cmp::Ordering::Greater)
        } else {
            Some(core::cmp::Ordering::Equal)
        }
    }
}

} // verus!

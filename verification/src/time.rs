//! Timestamps of the boot clock, which keeps running while the system is
//! suspended, and the arithmetic that scheduling needs on them.

use crate::error::DhcpError;
use crate::error::ErrorKind;
use core::cmp::Ordering;
use std::time::Duration;
use vstd::arithmetic::div_mod::lemma_fundamental_div_mod;
use vstd::arithmetic::div_mod::lemma_fundamental_div_mod_converse;
use vstd::arithmetic::div_mod::lemma_mod_bound;
use vstd::prelude::*;
use vstd::std_specs::cmp::PartialOrdSpec;
use vstd::std_specs::ops::AddSpec;
use vstd::std_specs::ops::DivSpec;
use vstd::std_specs::ops::SubSpec;
use vstd::string::StringExecFns;

verus! {

/// An instant of the boot clock, or a span between two of them.
///
/// A value stands for `sec * 1_000_000_000 + nsec` nanoseconds. Every
/// operation hands back the one value with `0 <= nsec < 1_000_000_000` that
/// stands for its result.
#[derive(Debug, Clone, Copy, Eq, Ord)]
pub struct BootTime {
    pub sec: i64,
    pub nsec: i64,
}

/// The length of a span in nanoseconds.
pub uninterp spec fn duration_nanos(d: Duration) -> nat;

/// `Duration::new` of std: the span of `secs` seconds and `nanos`
/// nanoseconds. With `nanos` below one second nothing is carried, so the
/// call cannot overflow.
#[verifier::external_body]
fn duration_from_parts(secs: u64, nanos: u32) -> (d: Duration)
    requires
        nanos < 1_000_000_000,
    ensures
        duration_nanos(d) == secs * 1_000_000_000 + nanos,
{
    Duration::new(secs, nanos)
}

impl BootTime {
    /// The value as a whole number of nanoseconds.
    pub open spec fn as_nanos(self) -> int {
        self.sec * 1_000_000_000 + self.nsec
    }

    /// The nanosecond part lies within one second.
    pub open spec fn is_sane(self) -> bool {
        0 <= self.nsec < 1_000_000_000
    }

    /// The whole seconds of `n` nanoseconds fit the `sec` field.
    pub open spec fn representable(n: int) -> bool {
        i64::MIN <= n / 1_000_000_000 <= i64::MAX
    }

    /// The sane value that stands for `n` nanoseconds.
    pub open spec fn from_nanos(n: int) -> BootTime {
        BootTime { sec: (n / 1_000_000_000) as i64, nsec: (n % 1_000_000_000) as i64 }
    }

    /// `from_nanos` is sane and keeps the nanoseconds, and no other sane
    /// value stands for them.
    pub proof fn lemma_from_nanos(n: int)
        requires
            Self::representable(n),
        ensures
            Self::from_nanos(n).is_sane(),
            Self::from_nanos(n).as_nanos() == n,
            forall|t: BootTime| t.is_sane() && t.as_nanos() == n ==> t == Self::from_nanos(n),
    {
    }

    pub fn new(sec: i64, nsec: i64) -> (t: Self)
        ensures
            t.sec == sec,
            t.nsec == nsec,
    {
        Self { sec, nsec }
    }

    /// The sum of two values, where it is representable.
    pub fn checked_add(self, other: BootTime) -> (r: Option<BootTime>)
        ensures
            r is Some <==> Self::representable(self.as_nanos() + other.as_nanos()),
            r matches Some(t) ==> t == Self::from_nanos(self.as_nanos() + other.as_nanos()),
    {
        let sec: i128 = self.sec as i128 + other.sec as i128;
        let nsec: i128 = self.nsec as i128 + other.nsec as i128;
        let mut carry: i128 = nsec / 1_000_000_000;
        if nsec % 1_000_000_000 < 0 {
            carry = carry - 1;
        }
        let whole: i128 = sec + carry;
        assert(whole == (sec * 1_000_000_000 + nsec) / 1_000_000_000);
        if whole < -0x8000_0000_0000_0000 || whole > 0x7fff_ffff_ffff_ffff {
            None
        } else {
            Some(Self::normalized(sec, nsec))
        }
    }

    /// The sane value of `sec` seconds and `nsec` nanoseconds.
    fn normalized(sec: i128, nsec: i128) -> (t: BootTime)
        requires
            -0x1_0000_0000_0000_0000 <= sec <= 0x1_0000_0000_0000_0000,
            -0x1_0000_0000_0000_0000_0000_0000 <= nsec <= 0x1_0000_0000_0000_0000_0000_0000,
            Self::representable(sec * 1_000_000_000 + nsec),
        ensures
            t == Self::from_nanos(sec * 1_000_000_000 + nsec),
    {
        let mut carry: i128 = nsec / 1_000_000_000;
        let mut rest: i128 = nsec % 1_000_000_000;
        if rest < 0 {
            carry = carry - 1;
            rest = rest + 1_000_000_000;
        }
        let whole: i128 = sec + carry;
        assert(sec * 1_000_000_000 + nsec == whole * 1_000_000_000 + rest);
        BootTime { sec: whole as i64, nsec: rest as i64 }
    }

    /// Carries between the two fields until the nanoseconds lie within one
    /// second; the value stands for the same nanoseconds as before.
    pub fn sanitize(&self) -> (t: BootTime)
        requires
            Self::representable(self.as_nanos()),
        ensures
            t == Self::from_nanos(self.as_nanos()),
            t.is_sane(),
            t.as_nanos() == self.as_nanos(),
            self.is_sane() ==> t == *self,
    {
        Self::normalized(self.sec as i128, self.nsec as i128)
    }

    /// The time from `self` to `now`, which the caller has read from the
    /// boot clock. An instant that lies after `now` is refused.
    pub fn elapsed(&self, now: BootTime) -> (r: Result<Duration, DhcpError>)
        requires
            now.as_nanos() - self.as_nanos() < (u64::MAX + 1) * 1_000_000_000,
        ensures
            r is Err <==> now.as_nanos() < self.as_nanos(),
            r matches Err(e) ==> e.kind == ErrorKind::InvalidArgument,
            r matches Ok(d) ==> duration_nanos(d) == now.as_nanos() - self.as_nanos(),
    {
        let span: i128 = (now.sec as i128 - self.sec as i128) * 1_000_000_000 + (now.nsec as i128
            - self.nsec as i128);
        if span < 0 {
            Err(
                DhcpError::invalid_argument(
                    String::from_str("the specified time is in the future"),
                ),
            )
        } else {
            let secs: i128 = span / 1_000_000_000;
            let nanos: i128 = span % 1_000_000_000;
            Ok(duration_from_parts(secs as u64, nanos as u32))
        }
    }
}

/// Every sane value stands for a representable number of nanoseconds, and
/// is the sane value of them: sanitizing it changes nothing.
pub proof fn law_sane_values_are_kept(t: BootTime)
    requires
        t.is_sane(),
    ensures
        BootTime::representable(t.as_nanos()),
        BootTime::from_nanos(t.as_nanos()) == t,
{
}

/// Where `a` is not before `b`, both sane, and their difference is
/// representable, `a - b` has no negative seconds and sane nanoseconds.
pub proof fn law_difference_of_ordered_pair(a: BootTime, b: BootTime)
    requires
        a.is_sane(),
        b.is_sane(),
        a.partial_cmp_spec(&b) matches Some(Ordering::Greater | Ordering::Equal),
        a.sub_req(b),
    ensures
        a.sub_spec(b).sec >= 0,
        0 <= a.sub_spec(b).nsec < 1_000_000_000,
        a.sub_spec(b).as_nanos() == a.as_nanos() - b.as_nanos(),
{
    BootTime::lemma_from_nanos(a.as_nanos() - b.as_nanos());
}

/// Dividing by a positive count and multiplying back falls short of the
/// value divided by less than `count` nanoseconds, and never exceeds it.
pub proof fn law_divide_then_multiply(t: BootTime, count: u32)
    requires
        t.div_req(count),
    ensures
        t.div_spec(count).is_sane(),
        0 <= t.as_nanos() - count * t.div_spec(count).as_nanos() < count,
{
    let n = t.as_nanos();
    let c = count as int;
    BootTime::lemma_from_nanos(n / c);
    lemma_fundamental_div_mod(n, c);
    lemma_mod_bound(n, c);
}

/// Every sane value can be divided by every positive count.
pub proof fn law_sane_values_divide(t: BootTime, count: u32)
    requires
        t.is_sane(),
        count > 0,
    ensures
        t.div_req(count),
{
    let n = t.as_nanos();
    let c = count as int;
    lemma_fundamental_div_mod(n, c);
    lemma_mod_bound(n, c);
    let q = n / c;
    if n >= 0 {
        assert(0 <= q <= n) by (nonlinear_arith)
            requires
                n == c * q + n % c,
                0 <= n % c < c,
                c >= 1,
                n >= 0,
        ;
    } else {
        assert(n <= q < 0) by (nonlinear_arith)
            requires
                n == c * q + n % c,
                0 <= n % c < c,
                c >= 1,
                n < 0,
        ;
    }
}

impl Default for BootTime {
    fn default() -> (t: Self)
        ensures
            t.sec == 0,
            t.nsec == 0,
    {
        Self { sec: 0, nsec: 0 }
    }
}

impl PartialEq for BootTime {
    fn eq(&self, other: &Self) -> (r: bool) {
        self.sec == other.sec && self.nsec == other.nsec
    }
}

impl vstd::std_specs::cmp::PartialEqSpecImpl for BootTime {
    open spec fn obeys_eq_spec() -> bool {
        true
    }

    open spec fn eq_spec(&self, other: &Self) -> bool {
        self.sec == other.sec && self.nsec == other.nsec
    }
}

impl PartialOrd for BootTime {
    /// Orders by the seconds, then by the nanoseconds.
    fn partial_cmp(&self, other: &Self) -> (r: Option<Ordering>) {
        if self.sec < other.sec {
            Some(Ordering::Less)
        } else if self.sec > other.sec {
            Some(Ordering::Greater)
        } else if self.nsec < other.nsec {
            Some(Ordering::Less)
        } else if self.nsec > other.nsec {
            Some(Ordering::Greater)
        } else {
            Some(Ordering::Equal)
        }
    }
}

impl vstd::std_specs::cmp::PartialOrdSpecImpl for BootTime {
    open spec fn obeys_partial_cmp_spec() -> bool {
        true
    }

    open spec fn partial_cmp_spec(&self, other: &Self) -> Option<Ordering> {
        if self.sec < other.sec {
            Some(Ordering::Less)
        } else if self.sec > other.sec {
            Some(Ordering::Greater)
        } else if self.nsec < other.nsec {
            Some(Ordering::Less)
        } else if self.nsec > other.nsec {
            Some(Ordering::Greater)
        } else {
            Some(Ordering::Equal)
        }
    }
}

impl vstd::std_specs::ops::AddSpecImpl for BootTime {
    open spec fn obeys_add_spec() -> bool {
        true
    }

    open spec fn add_req(self, rhs: BootTime) -> bool {
        BootTime::representable(self.as_nanos() + rhs.as_nanos())
    }

    open spec fn add_spec(self, rhs: BootTime) -> BootTime {
        BootTime::from_nanos(self.as_nanos() + rhs.as_nanos())
    }
}

impl std::ops::Add for BootTime {
    type Output = BootTime;

    /// The sane value of the sum. The sum has to be representable.
    fn add(self, other: BootTime) -> (t: BootTime)
        ensures
            t.is_sane(),
            t.as_nanos() == self.as_nanos() + other.as_nanos(),
    {
        BootTime::normalized(
            self.sec as i128 + other.sec as i128,
            self.nsec as i128 + other.nsec as i128,
        )
    }
}

impl vstd::std_specs::ops::SubSpecImpl for BootTime {
    open spec fn obeys_sub_spec() -> bool {
        true
    }

    open spec fn sub_req(self, rhs: BootTime) -> bool {
        BootTime::representable(self.as_nanos() - rhs.as_nanos())
    }

    open spec fn sub_spec(self, rhs: BootTime) -> BootTime {
        BootTime::from_nanos(self.as_nanos() - rhs.as_nanos())
    }
}

impl std::ops::Sub for BootTime {
    type Output = BootTime;

    /// The sane value of the difference. The difference has to be
    /// representable.
    fn sub(self, other: BootTime) -> (t: BootTime)
        ensures
            t.is_sane(),
            t.as_nanos() == self.as_nanos() - other.as_nanos(),
    {
        BootTime::normalized(
            self.sec as i128 - other.sec as i128,
            self.nsec as i128 - other.nsec as i128,
        )
    }
}

impl vstd::std_specs::ops::DivSpecImpl<u32> for BootTime {
    open spec fn obeys_div_spec() -> bool {
        true
    }

    open spec fn div_req(self, rhs: u32) -> bool {
        rhs > 0 && BootTime::representable(self.as_nanos() / (rhs as int))
    }

    open spec fn div_spec(self, rhs: u32) -> BootTime {
        BootTime::from_nanos(self.as_nanos() / (rhs as int))
    }
}

impl std::ops::Div<u32> for BootTime {
    type Output = BootTime;

    /// The sane value of the nanoseconds divided by `other`, rounded down.
    /// The divisor has to be positive and the quotient representable.
    fn div(self, other: u32) -> (t: BootTime)
        ensures
            t.is_sane(),
            t.as_nanos() == self.as_nanos() / (other as int),
    {
        let total: i128 = self.sec as i128 * 1_000_000_000 + self.nsec as i128;
        let count: i128 = other as i128;
        let quotient: i128 = if total >= 0 {
            let down: i128 = total / count;
            proof {
                lemma_fundamental_div_mod(total as int, count as int);
                lemma_mod_bound(total as int, count as int);
            }
            down
        } else {
            let lifted: i128 = -total + (count - 1);
            let up: i128 = lifted / count;
            proof {
                let rest: int = (lifted as int) % (count as int);
                lemma_fundamental_div_mod(lifted as int, count as int);
                lemma_mod_bound(lifted as int, count as int);
                assert(total == (-up) * count + (count - 1 - rest)) by (nonlinear_arith)
                    requires
                        lifted == count * up + rest,
                        lifted == -total + (count - 1),
                ;
                lemma_fundamental_div_mod_converse(
                    total as int,
                    count as int,
                    -up as int,
                    count - 1 - rest,
                );
            }
            -up
        };
        BootTime::normalized(0, quotient)
    }
}

} // verus!

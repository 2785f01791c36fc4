//! Time units: integer timestamps in an explicit rational time base, and a
//! canonical microsecond wall-clock representation.
//!
//! A `Timestamp` counts ticks of a stream's time base; `Seconds` is the
//! engine's single time domain, held as a count of microseconds (the
//! canonical time base is one microsecond per tick).  Conversions rescale
//! with round-half-away-from-zero rounding, and the round trip is exact
//! whenever a tick is at least one microsecond long.

use vstd::prelude::*;

verus! {

/// Microseconds per second: the denominator of the canonical time base.
pub const MICROS_PER_SECOND: i64 = 1_000_000;

/// A rational time base: one timestamp tick lasts `num / den` seconds.
#[derive(Clone, Copy, Debug, PartialEq, Eq, Structural)]
pub struct Rational {
    pub num: i32,
    pub den: i32,
}

impl Rational {
    /// A usable time base is strictly positive.
    pub open spec fn wf(self) -> bool {
        self.num >= 1 && self.den >= 1
    }

    pub fn new(num: i32, den: i32) -> (r: Rational)
        ensures
            r.num == num,
            r.den == den,
    {
        Rational { num, den }
    }
}

/// Wall-clock time in the canonical time base: a count of microseconds.
#[derive(Clone, Copy, Debug, PartialEq, Eq, Structural)]
pub struct Seconds {
    pub micros: i64,
}

/// An integer tick count in some rational time base.
#[derive(Clone, Copy, Debug, PartialEq, Eq, Structural)]
pub struct Timestamp(pub i64);

/// Quotient of `a / b` rounded to the nearest integer, halves away from zero.
/// Only meaningful for `b >= 1`.
pub open spec fn round_div(a: int, b: int) -> int {
    if a >= 0 {
        (2 * a + b) / (2 * b)
    } else {
        -((2 * (-a) + b) / (2 * b))
    }
}

/// The microsecond count that `t` ticks of time base `tb` stand for.
pub open spec fn to_micros_spec(tb: Rational, t: int) -> int {
    round_div(t * tb.num * MICROS_PER_SECOND, tb.den as int)
}

/// The tick count in time base `tb` nearest to `m` microseconds.
pub open spec fn from_micros_spec(tb: Rational, m: int) -> int {
    round_div(m * tb.den, tb.num * MICROS_PER_SECOND as int)
}

/// The canonical time base: one tick per microsecond.
pub open spec fn default_timebase_spec() -> Rational {
    Rational { num: 1, den: 1_000_000 }
}

/// The canonical time base: one tick per microsecond.
pub fn default_timebase() -> (r: Rational)
    ensures
        r == default_timebase_spec(),
{
    Rational { num: 1, den: 1_000_000 }
}

/// In the canonical time base, ticks and microseconds coincide: both
/// conversions are the identity.
pub proof fn lemma_default_timebase_identity(t: int)
    ensures
        to_micros_spec(default_timebase_spec(), t) == t,
        from_micros_spec(default_timebase_spec(), t) == t,
{
    let m = MICROS_PER_SECOND as int;
    assert(t * 1 * m == t * m) by (nonlinear_arith);
    lemma_round_div_exact(t, m);
    assert(to_micros_spec(default_timebase_spec(), t) == round_div(t * m, m));
    assert(from_micros_spec(default_timebase_spec(), t) == round_div(t * m, 1 * m));
}

/// `round_div` misses the true quotient by at most a half:
/// `|round_div(a, b) * b - a| <= b / 2`.
proof fn lemma_round_div_close(a: int, b: int)
    requires
        b >= 1,
    ensures
        2 * (round_div(a, b) * b - a) <= b,
        2 * (a - round_div(a, b) * b) <= b,
{
    if a >= 0 {
        let r = (2 * a + b) / (2 * b);
        let rem = (2 * a + b) % (2 * b);
        assert(2 * a + b == (2 * b) * r + rem && 0 <= rem < 2 * b) by {
            vstd::arithmetic::div_mod::lemma_fundamental_div_mod(2 * a + b, 2 * b);
        }
        assert(2 * (r * b - a) == b - rem) by (nonlinear_arith)
            requires
                2 * a + b == (2 * b) * r + rem,
        ;
    } else {
        let n = -a;
        let r = (2 * n + b) / (2 * b);
        let rem = (2 * n + b) % (2 * b);
        assert(2 * n + b == (2 * b) * r + rem && 0 <= rem < 2 * b) by {
            vstd::arithmetic::div_mod::lemma_fundamental_div_mod(2 * n + b, 2 * b);
        }
        assert(2 * (r * b - n) == b - rem) by (nonlinear_arith)
            requires
                2 * n + b == (2 * b) * r + rem,
        ;
        assert(round_div(a, b) == -r);
        assert((-r) * b - a == -(r * b - n)) by (nonlinear_arith)
            requires
                n == -a,
        ;
    }
}

/// Dividing an exact multiple rounds to the exact quotient.
proof fn lemma_round_div_exact(x: int, b: int)
    requires
        b >= 1,
    ensures
        round_div(x * b, b) == x,
{
    if x >= 0 {
        assert(x * b >= 0) by (nonlinear_arith)
            requires
                x >= 0,
                b >= 1,
        ;
        assert(2 * (x * b) + b == (2 * b) * x + b) by (nonlinear_arith);
        assert((2 * (x * b) + b) / (2 * b) == x) by {
            vstd::arithmetic::div_mod::lemma_fundamental_div_mod_converse(
                2 * (x * b) + b, 2 * b, x, b);
        }
    } else {
        assert(x * b < 0) by (nonlinear_arith)
            requires
                x < 0,
                b >= 1,
        ;
        let n = -(x * b);
        assert(n == (-x) * b) by (nonlinear_arith)
            requires
                n == -(x * b),
        ;
        assert(2 * n + b == (2 * b) * (-x) + b) by (nonlinear_arith)
            requires
                n == (-x) * b,
        ;
        assert((2 * n + b) / (2 * b) == -x) by {
            vstd::arithmetic::div_mod::lemma_fundamental_div_mod_converse(
                2 * n + b, 2 * b, -x, b);
        }
    }
}

/// Round trip through the canonical microsecond domain: converting a
/// timestamp to microseconds and back returns the same timestamp, for every
/// time base whose tick is at least one microsecond long.
pub proof fn lemma_timestamp_round_trip(tb: Rational, t: int)
    requires
        tb.wf(),
        tb.num * MICROS_PER_SECOND >= tb.den,
    ensures
        from_micros_spec(tb, to_micros_spec(tb, t)) == t,
{
    let a = tb.num * (MICROS_PER_SECOND as int);
    let d = tb.den as int;
    let u = to_micros_spec(tb, t);
    let t2 = from_micros_spec(tb, u);
    assert(a >= d >= 1);
    assert(t * tb.num * MICROS_PER_SECOND == t * a) by (nonlinear_arith)
        requires
            a == tb.num * (MICROS_PER_SECOND as int),
    ;
    assert(u == round_div(t * a, d));
    if a == d {
        lemma_round_div_exact(t, d);
        assert(t * a == t * d) by (nonlinear_arith)
            requires
                a == d,
        ;
        assert(u == t);
        assert(u * d == t * a) by (nonlinear_arith)
            requires
                u == t,
                a == d,
        ;
        lemma_round_div_exact(t, a);
        assert(t2 == t);
    } else {
        lemma_round_div_close(t * a, d);
        lemma_round_div_close(u * d, a);
        assert(2 * (u * d - t * a) <= d && 2 * (t * a - u * d) <= d);
        assert(2 * (t2 * a - u * d) <= a && 2 * (u * d - t2 * a) <= a);
        // |t2 - t| * 2a <= a + d < 2a, so t2 == t.
        assert(t2 == t) by (nonlinear_arith)
            requires
                a > d >= 1,
                2 * (u * d - t * a) <= d,
                2 * (t * a - u * d) <= d,
                2 * (t2 * a - u * d) <= a,
                2 * (u * d - t2 * a) <= a,
        ;
    }
}

/// Exec rounding division on magnitudes: `(2a + b) / (2b)` in `u128`.
fn round_div_mag(a: u128, b: u128) -> (r: u128)
    requires
        1 <= b <= 0x7fff_ffff_ffff_ffff,
        a <= 0x3fff_ffff_ffff_ffff_ffff_ffff_ffff_ffff,
    ensures
        r == round_div(a as int, b as int),
{
    let r: u128 = (2 * a + b) / (2 * b);
    r
}

impl Timestamp {
    /// Rescales this tick count into the canonical microsecond domain.
    pub fn to_seconds(self, timebase: Rational) -> (r: Seconds)
        requires
            timebase.wf(),
            -0x7fff_ffff_ffff_ffff <= to_micros_spec(timebase, self.0 as int)
                <= 0x7fff_ffff_ffff_ffff,
        ensures
            r.micros == to_micros_spec(timebase, self.0 as int),
    {
        let t = self.0;
        let neg: bool = t < 0;
        let mag: u128 = if t < 0 {
            (-(t as i128)) as u128
        } else {
            t as u128
        };
        let num = timebase.num as u128;
        let den = timebase.den as u128;
        proof {
            assert(mag * num <= 0x8000_0000_0000_0000 * 0x7fff_ffff) by (nonlinear_arith)
                requires
                    mag <= 0x8000_0000_0000_0000,
                    num <= 0x7fff_ffff,
            ;
        }
        let mn: u128 = mag * num;
        let prod: u128 = mn * 1_000_000;
        proof {
            if t >= 0 {
                assert(mag * num * (MICROS_PER_SECOND as int)
                    == (t as int) * timebase.num * MICROS_PER_SECOND) by (nonlinear_arith)
                    requires
                        mag == t,
                        num == timebase.num,
                ;
            } else {
                assert(mag * num * (MICROS_PER_SECOND as int)
                    == -((t as int) * timebase.num * MICROS_PER_SECOND)) by (nonlinear_arith)
                    requires
                        mag == -(t as int),
                        num == timebase.num,
                ;
            }
            assert(prod == mag * num * (MICROS_PER_SECOND as int)) by (nonlinear_arith)
                requires
                    mn == mag * num,
                    prod == mn * (MICROS_PER_SECOND as int),
            ;
        }
        let q: u128 = round_div_mag(prod, den);
        let ghost spec_r = to_micros_spec(timebase, t as int);
        proof {
            let x = (t as int) * timebase.num * MICROS_PER_SECOND;
            if t >= 0 {
                assert(q == round_div(x, den as int));
            } else {
                assert(q == round_div(-x, den as int));
                assert(x <= 0);
                if x < 0 {
                    assert(round_div(x, den as int) == -round_div(-x, den as int));
                } else {
                    assert(round_div(0, den as int) == 0) by {
                        vstd::arithmetic::div_mod::lemma_basic_div(
                            den as int, 2 * (den as int));
                    }
                }
            }
            assert(if t >= 0 { spec_r == q } else { spec_r == -(q as int) });
        }
        let micros: i64 = if neg {
            -(q as i64)
        } else {
            q as i64
        };
        Seconds { micros }
    }

    /// Finds the tick count in `timebase` nearest to the given wall-clock time.
    pub fn from_seconds(s: Seconds, timebase: Rational) -> (r: Timestamp)
        requires
            timebase.wf(),
            -0x7fff_ffff_ffff_ffff <= from_micros_spec(timebase, s.micros as int)
                <= 0x7fff_ffff_ffff_ffff,
        ensures
            r.0 == from_micros_spec(timebase, s.micros as int),
    {
        let m = s.micros;
        let neg: bool = m < 0;
        let mag: u128 = if m < 0 {
            (-(m as i128)) as u128
        } else {
            m as u128
        };
        let num = timebase.num as u128;
        let den = timebase.den as u128;
        proof {
            assert(mag * den <= 0x8000_0000_0000_0000 * 0x7fff_ffff) by (nonlinear_arith)
                requires
                    mag <= 0x8000_0000_0000_0000,
                    den <= 0x7fff_ffff,
            ;
        }
        let prod: u128 = mag * den;
        let divisor: u128 = num * 1_000_000;
        let q: u128 = round_div_mag(prod, divisor);
        let ghost spec_r = from_micros_spec(timebase, m as int);
        proof {
            let x = (m as int) * timebase.den;
            if m >= 0 {
                assert(prod == x) by (nonlinear_arith)
                    requires
                        mag == m,
                        den == timebase.den,
                        prod == mag * den,
                        x == (m as int) * timebase.den,
                ;
                assert(q == round_div(x, timebase.num * MICROS_PER_SECOND as int));
            } else {
                assert(prod == -x) by (nonlinear_arith)
                    requires
                        mag == -(m as int),
                        den == timebase.den,
                        prod == mag * den,
                        x == (m as int) * timebase.den,
                ;
                assert(q == round_div(-x, timebase.num * MICROS_PER_SECOND as int));
                assert(x <= 0);
                if x < 0 {
                    assert(round_div(x, timebase.num * MICROS_PER_SECOND as int)
                        == -round_div(-x, timebase.num * MICROS_PER_SECOND as int));
                } else {
                    assert(round_div(0, timebase.num * MICROS_PER_SECOND as int) == 0) by {
                        vstd::arithmetic::div_mod::lemma_basic_div(
                            timebase.num * MICROS_PER_SECOND as int,
                            2 * (timebase.num * MICROS_PER_SECOND as int));
                    }
                }
            }
            assert(if m >= 0 { spec_r == q } else { spec_r == -(q as int) });
        }
        let ticks: i64 = if neg {
            -(q as i64)
        } else {
            q as i64
        };
        Timestamp(ticks)
    }
}

} // verus!

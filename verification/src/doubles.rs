//! Numbers as double precision holds them: with 53 binary places, of two that are equally near
//! the even one.

use vstd::prelude::*;
use vstd::arithmetic::power2::{lemma_pow2_adds, lemma_pow2_pos, lemma_pow2_unfold, pow2};

verus! {

/// A number in double precision, by its bits.
#[derive(Debug, Clone, Copy, PartialEq, Eq, Structural)]
pub struct Double {
    pub bits: u64,
}

/// The bits of 1.
pub const ONE: u64 = 0x3ff0_0000_0000_0000;

/// The bits of 2.
pub const TWO: u64 = 0x4000_0000_0000_0000;

/// The bits of 0 with a sign; those of what is below 0 come after them.
pub const NEGATIVE: u64 = 0x8000_0000_0000_0000;

/// The bits of infinity; those of what is no number come after them.
pub const INFINITE: u64 = 0x7ff0_0000_0000_0000;

/// How many mantissas there are with one exponent.
pub const MANTISSAS: u64 = 0x10_0000_0000_0000;

impl Double {
    /// Whether it is no number.
    pub open spec fn is_nan(self) -> bool {
        INFINITE < self.bits < NEGATIVE || self.bits > NEGATIVE + INFINITE
    }

    /// Whether it is below 0.
    pub open spec fn below_zero(self) -> bool {
        NEGATIVE < self.bits <= NEGATIVE + INFINITE
    }

    /// Whether it is above 2.
    pub open spec fn above_two(self) -> bool {
        TWO < self.bits <= INFINITE
    }

    /// The number within 0 and 2: what is below or above is drawn to the nearer of the two.
    pub open spec fn within_two(self) -> Double {
        if self.below_zero() {
            Double { bits: 0 }
        } else if self.above_two() {
            Double { bits: TWO }
        } else {
            self
        }
    }

    /// The exponent as the bits hold it.
    pub open spec fn exponent(self) -> int {
        (self.bits as int / MANTISSAS as int) % 2048
    }

    /// The number without its sign, times 2 to the number of its places.
    pub open spec fn mantissa(self) -> nat {
        ((self.bits as int) % (MANTISSAS as int) + (if self.exponent() > 0 {
            MANTISSAS as int
        } else {
            0
        })) as nat
    }

    /// How many binary places behind the point the mantissa has.
    pub open spec fn places(self) -> int {
        1075 - (if self.exponent() > 0 {
            self.exponent()
        } else {
            1
        })
    }

    /// Tells whether it is no number.
    pub fn check_nan(self) -> (r: bool)
        ensures
            r == self.is_nan(),
    {
        (INFINITE < self.bits && self.bits < NEGATIVE) || self.bits > NEGATIVE + INFINITE
    }

    /// The number within 0 and 2.
    pub fn clamp_to_two(self) -> (r: Double)
        ensures
            r == self.within_two(),
    {
        if NEGATIVE < self.bits && self.bits <= NEGATIVE + INFINITE {
            Double { bits: 0 }
        } else if TWO < self.bits && self.bits <= INFINITE {
            Double { bits: TWO }
        } else {
            self
        }
    }
}

// ── Rounding ──

/// The whole number nearest to the quotient; of two that are equally near, the even one.
pub open spec fn nearest_even(p: nat, q: nat) -> nat {
    let n = p / q;
    let rest = p % q;
    if 2 * rest < q || (2 * rest == q && n % 2 == 0) {
        n
    } else {
        n + 1
    }
}

/// The whole number nearest to the quotient; of two that are equally near, the greater one.
pub open spec fn nearest_up(p: nat, q: nat) -> nat {
    (2 * p + q) / (2 * q)
}

/// How many binary places before the point the quotient has beyond the 53 that are held.
pub open spec fn excess(p: nat, q: nat) -> nat
    decreases p - q,
{
    if q == 0 || p < q * 0x20_0000_0000_0000 {
        0
    } else {
        1 + excess(p, 2 * q)
    }
}

/// How many binary places behind the point the quotient needs for 53 to be held.
pub open spec fn shortfall(p: nat, q: nat) -> nat
    decreases q * 0x20_0000_0000_0000 - p,
{
    if p == 0 || p >= q * 0x10_0000_0000_0000 {
        0
    } else {
        1 + shortfall(2 * p, q)
    }
}

/// The whole number as it is held.
pub open spec fn held(n: nat) -> nat {
    nearest_even(n, pow2(excess(n, 1))) * pow2(excess(n, 1))
}

/// The quotient as it is held, in the given parts of 1, rounded to a whole number of them.
pub open spec fn in_parts(p: nat, q: nat, parts: nat) -> nat {
    if p < q * 0x20_0000_0000_0000 {
        let s = pow2(shortfall(p, q));
        nearest_even(parts * nearest_even(p * s, q), s)
    } else {
        let s = pow2(excess(p, q));
        parts * nearest_even(p, q * s) * s
    }
}

/// A whole number times a positive one, as it is held, rounded to the nearest whole number.
pub open spec fn product(n: nat, x: Double) -> nat {
    nearest_up(held(n * x.mantissa()), pow2(x.places() as nat))
}

// ── Execution ──

pub(crate) proof fn lemma_quotient(p: nat, q: nat)
    requires
        q > 0,
    ensures
        p == (p / q) * q + p % q,
        p % q < q,
        nearest_even(p, q) * q <= p + q,
        p % q == 0 ==> nearest_even(p, q) * q == p,
{
    vstd::arithmetic::div_mod::lemma_fundamental_div_mod(p as int, q as int);
    let n = p / q;
    assert(q * n == n * q) by (nonlinear_arith);
    assert((n + 1) * q == n * q + q) by (nonlinear_arith);
}

/// The whole number nearest to the quotient.
fn divide(p: u128, q: u128) -> (r: u128)
    requires
        0 < q < 0x8000_0000_0000_0000_0000_0000_0000_0000,
    ensures
        r == nearest_even(p as nat, q as nat),
{
    let n: u128 = p / q;
    let rest: u128 = p % q;
    proof {
        lemma_quotient(p as nat, q as nat);
        if rest > 0 {
            assert(n < p) by (nonlinear_arith)
                requires
                    p == n * q + rest,
                    rest > 0,
                    q > 0,
                    n >= 0,
            ;
        }
    }
    if 2 * rest < q || (2 * rest == q && n % 2 == 0) {
        n
    } else {
        n + 1
    }
}

/// Two to the power.
fn power_of_two(k: u32) -> (r: u128)
    requires
        k < 127,
    ensures
        r == pow2(k as nat),
        0 < r <= 0x4000_0000_0000_0000_0000_0000_0000_0000,
{
    let mut r: u128 = 1;
    let mut i: u32 = 0;
    proof {
        lemma_top();
    }
    while i < k
        invariant
            i <= k < 127,
            r == pow2(i as nat),
            pow2(126) == 0x4000_0000_0000_0000_0000_0000_0000_0000,
            0 < r <= 0x4000_0000_0000_0000_0000_0000_0000_0000,
        decreases k - i,
    {
        proof {
            lemma_pow2_unfold((i + 1) as nat);
            lemma_no_greater((i + 1) as nat, 126);
        }
        r = 2 * r;
        i = i + 1;
    }
    r
}

proof fn lemma_top()
    ensures
        pow2(0) == 1,
        pow2(126) == 0x4000_0000_0000_0000_0000_0000_0000_0000,
{
    vstd::arithmetic::power2::lemma2_to64();
    vstd::arithmetic::power2::lemma2_to64_rest();
    lemma_pow2_adds(63, 63);
    assert(pow2(63) == 0x8000_0000_0000_0000);
}

proof fn lemma_no_greater(a: nat, b: nat)
    requires
        a <= b,
    ensures
        pow2(a) <= pow2(b),
    decreases b - a,
{
    if a < b {
        lemma_pow2_unfold(b);
        lemma_no_greater(a, (b - 1) as nat);
        lemma_pow2_pos((b - 1) as nat);
    }
}

/// How much of a quotient is dropped: the power of two by which it is divided so that 53
/// binary places are left.
fn scale_down(p: u128, q: u128) -> (r: u128)
    requires
        0 < q <= 1000,
        p <= 0x8000_0000_0000_0000_0000_0000_0000_0000,
    ensures
        r == pow2(excess(p as nat, q as nat)),
        r > 0,
        q * r <= p || r == 1,
        q * r <= 0x800_0000_0000_0000_0000,
{
    let most: u128 = p / 0x20_0000_0000_0000;
    let mut w: u128 = 1;
    let mut b: u128 = q;
    let ghost mut k: nat = 0;
    proof {
        lemma_top();
    }
    while b <= most
        invariant
            0 < q <= 1000,
            p <= 0x8000_0000_0000_0000_0000_0000_0000_0000,
            most == p / 0x20_0000_0000_0000,
            w == pow2(k),
            w > 0,
            b == q * w,
            b <= p || w == 1,
            b <= 0x800_0000_0000_0000_0000,
            excess(p as nat, q as nat) == k + excess(p as nat, b as nat),
        decreases 2 * most + 1 - b,
    {
        proof {
            lemma_pow2_unfold(k + 1);
            assert(q * (2 * w) == 2 * (q * w)) by (nonlinear_arith);
            assert(w <= q * w) by (nonlinear_arith)
                requires
                    q > 0,
                    w > 0,
            ;
            k = k + 1;
        }
        w = 2 * w;
        b = 2 * b;
    }
    w
}

/// The whole number as it is held.
fn hold(n: u128) -> (r: u128)
    requires
        n <= 0x4000_0000_0000_0000_0000_0000_0000_0000,
    ensures
        r == held(n as nat),
        r <= 2 * n,
{
    let w: u128 = scale_down(n, 1);
    let m: u128 = divide(n, w);
    proof {
        lemma_quotient(n as nat, w as nat);
        if w == 1 {
            assert(n as nat % 1nat == 0);
        }
    }
    m * w
}

/// The quotient as it is held, in the given parts of 1, rounded to a whole number of them.
pub fn count_parts(p: u128, q: u128, parts: u128) -> (r: u128)
    requires
        0 < q <= 1000,
        2 * parts <= q,
        p <= 0x8000_0000_0000_0000_0000_0000_0000_0000,
    ensures
        r == in_parts(p as nat, q as nat, parts as nat),
{
    if p < q * 0x20_0000_0000_0000 {
        let mut w: u128 = 1;
        let mut a: u128 = p;
        let ghost mut k: nat = 0;
        proof {
            lemma_top();
        }
        while a != 0 && a < q * 0x10_0000_0000_0000
            invariant
                0 < q <= 1000,
                w == pow2(k),
                w > 0,
                a == p * w,
                a < q * 0x20_0000_0000_0000,
                w <= a || w == 1,
                shortfall(p as nat, q as nat) == k + shortfall(a as nat, q as nat),
            decreases q * 0x20_0000_0000_0000 - a,
        {
            proof {
                lemma_pow2_unfold(k + 1);
                assert(p * (2 * w) == 2 * (p * w)) by (nonlinear_arith);
                k = k + 1;
            }
            w = 2 * w;
            a = 2 * a;
        }
        let m: u128 = divide(a, q);
        proof {
            lemma_quotient(a as nat, q as nat);
            assert(m <= 0x20_0000_0000_0001) by (nonlinear_arith)
                requires
                    m * q <= a + q,
                    a < q * 0x20_0000_0000_0000,
                    q > 0,
            ;
            assert(0 <= parts * m <= 1000 * 0x20_0000_0000_0001) by (nonlinear_arith)
                requires
                    0 <= parts <= 1000,
                    0 <= m <= 0x20_0000_0000_0001,
            ;
        }
        divide(parts * m, w)
    } else {
        let w: u128 = scale_down(p, q);
        proof {
            assert(q <= q * w) by (nonlinear_arith)
                requires
                    w > 0,
                    q > 0,
            ;
        }
        let b: u128 = q * w;
        let m: u128 = divide(p, b);
        proof {
            lemma_quotient(p as nat, b as nat);
            if w == 1 {
                assert(b == q) by (nonlinear_arith)
                    requires
                        b == q * w,
                        w == 1,
                ;
            }
            assert(m * b <= 2 * p);
            assert(2 * (parts * m * w) <= m * b) by (nonlinear_arith)
                requires
                    b == q * w,
                    2 * parts <= q,
                    m >= 0,
                    w >= 0,
            ;
            assert(parts * m <= parts * m * w) by (nonlinear_arith)
                requires
                    parts >= 0,
                    m >= 0,
                    w > 0,
            ;
        }
        parts * m * w
    }
}

/// A whole number times one of at most 2, as it is held, rounded to the nearest whole number.
pub fn multiply(n: u32, x: Double) -> (r: u128)
    requires
        x.bits <= TWO || x.bits == NEGATIVE,
    ensures
        r == product(n as nat, x),
{
    let exponent: u64 = x.bits / MANTISSAS % 2048;
    let fraction: u64 = x.bits % MANTISSAS;
    let mantissa: u64 = if exponent > 0 {
        fraction + MANTISSAS
    } else {
        fraction
    };
    let places: u32 = 1075 - (if exponent > 0 {
        exponent as u32
    } else {
        1
    });
    assert(exponent <= 1024);
    assert(mantissa == x.mantissa());
    assert(places == x.places());
    assert(0 <= n * mantissa <= 0xffff_ffff * 0x20_0000_0000_0000) by (nonlinear_arith)
        requires
            0 <= n <= 0xffff_ffff,
            0 <= mantissa <= 0x20_0000_0000_0000,
    ;
    let h: u128 = hold(n as u128 * mantissa as u128);
    if places >= 126 {
        proof {
            lemma_top();
            lemma_no_greater(126, places as nat);
            let d = pow2(places as nat);
            vstd::arithmetic::div_mod::lemma_basic_div((2 * h + d) as int, (2 * d) as int);
        }
        return 0;
    }
    let d: u128 = power_of_two(places);
    (2 * h + d) / (2 * d)
}

// ── Laws ──

pub(crate) proof fn lemma_excess(p: nat, q: nat, k: nat)
    requires
        q > 0,
        p < q * pow2(k) * 0x20_0000_0000_0000,
    ensures
        excess(p, q) <= k,
    decreases k,
{
    if p >= q * 0x20_0000_0000_0000 {
        lemma_top();
        assert(k > 0) by {
            if k == 0 {
                assert(q * pow2(k) == q) by (nonlinear_arith)
                    requires
                        pow2(k) == 1,
                ;
            }
        }
        lemma_pow2_unfold(k);
        let h = pow2((k - 1) as nat);
        assert(q * (2 * h) == (2 * q) * h) by (nonlinear_arith);
        lemma_excess(p, 2 * q, (k - 1) as nat);
    }
}

/// A whole number times 1 is the number.
pub proof fn law_once_is_the_same(n: u32)
    ensures
        product(n as nat, Double { bits: ONE }) == n,
{
    let x = Double { bits: ONE };
    assert(x.mantissa() == 0x10_0000_0000_0000);
    assert(x.places() == 52);
    vstd::arithmetic::power2::lemma2_to64();
    vstd::arithmetic::power2::lemma2_to64_rest();
    let one = pow2(52);
    let p = n as nat * one;
    lemma_excess(p, 1, 32);
    let k = excess(p, 1);
    let w = pow2(k);
    lemma_pow2_pos(k);
    lemma_pow2_adds(k, (52 - k) as nat);
    let rest = pow2((52 - k) as nat);
    assert(p == (n as nat * rest) * w) by (nonlinear_arith)
        requires
            p == n as nat * one,
            one == w * rest,
    ;
    vstd::arithmetic::div_mod::lemma_mod_multiples_basic((n as nat * rest) as int, w as int);
    lemma_quotient(p, w);
    assert(held(p) == p);
    assert((2 * p + one) as int == (2 * one) * n + one) by (nonlinear_arith)
        requires
            p == n as nat * one,
    ;
    vstd::arithmetic::div_mod::lemma_fundamental_div_mod_converse(
        (2 * p + one) as int,
        (2 * one) as int,
        n as int,
        one as int,
    );
}

} // verus!

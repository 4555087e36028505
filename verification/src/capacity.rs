//! Battery capacity figures: wear in percent, and micro-units as one-decimal text.
//!
//! A capacity is shown with the digits that IEEE double precision gives for
//! `micro / 1000000` rounded to one decimal. The arithmetic here is on integers: a double is
//! modelled by its 53-bit significand and a power of two.
use vstd::arithmetic::power2::*;
use vstd::prelude::*;
use vstd::string::*;

use crate::text;

verus! {

/// The integer nearest to `p / q`; of two that are equally near, the even one.
pub open spec fn round_half_even(p: nat, q: nat) -> nat {
    let d = p / q;
    let r = p % q;
    if 2 * r > q || (2 * r == q && d % 2 == 1) {
        d + 1
    } else {
        d
    }
}

/// How many low bits of `n` do not fit in a 53-bit significand.
pub open spec fn excess_bits(n: nat) -> nat
    decreases n,
{
    if n < 0x20_0000_0000_0000 {
        0
    } else {
        1 + excess_bits(n / 2)
    }
}

/// The double nearest to the integer `n`, itself an integer.
pub open spec fn nearest_double(n: nat) -> nat {
    let p = pow2(excess_bits(n));
    round_half_even(n, p) * p
}

/// One million times the least 53-bit significand.
pub const LEAST_NUMERATOR: u128 = 4_503_599_627_370_496_000_000;

/// The binary places of the significand of `a / 1000000`: the least `s` with which
/// `a * 2^s / 1000000` has 53 bits.
pub open spec fn quotient_places(a: nat) -> nat
    decreases (if a < LEAST_NUMERATOR { LEAST_NUMERATOR - a } else { 0 }),
{
    if a == 0 || a >= LEAST_NUMERATOR {
        0
    } else {
        1 + quotient_places(2 * a)
    }
}

/// The number of tenths shown for `micro` micro-units: the double nearest to `micro`, divided
/// by one million in double precision, then rounded to one decimal.
pub open spec fn tenths(micro: nat) -> nat {
    let a = nearest_double(micro);
    let p = pow2(quotient_places(a));
    let significand = round_half_even(a * p, 1_000_000);
    round_half_even(10 * significand, p)
}

/// Micro-units as text, with one decimal and the unit: `57.1 Wh`.
pub open spec fn micro_capacity_text(micro: nat, unit: Seq<char>) -> Seq<char> {
    text::decimal(tenths(micro) / 10) + "."@ + text::decimal(tenths(micro) % 10) + " "@ + unit
}

fn round_half_even_exec(p: u128, q: u128) -> (r: u128)
    requires
        0 < q <= 0xffff_ffff_ffff_ffff_ffff_ffff,
        p <= 0xffff_ffff_ffff_ffff_ffff_ffff,
    ensures
        r == round_half_even(p as nat, q as nat),
        r <= p / q + 1,
{
    let d: u128 = p / q;
    let r: u128 = p % q;
    assert(d <= p) by (nonlinear_arith)
        requires
            d == p / q,
            q > 0,
    ;
    if 2 * r > q || (2 * r == q && d % 2 == 1) {
        d + 1
    } else {
        d
    }
}

/// Converts an integer to the nearest double.
fn nearest_double_exec(n: u64) -> (r: u128)
    ensures
        r == nearest_double(n as nat),
        r <= 0x2_0000_0000_0000_0000,
{
    let mut top: u64 = n;
    let mut p: u128 = 1;
    let ghost mut k: nat = 0;
    proof {
        lemma2_to64();
    }
    while top >= 0x20_0000_0000_0000
        invariant
            p == pow2(k),
            1 <= p,
            excess_bits(n as nat) == k + excess_bits(top as nat),
            p * top <= n,
        decreases top,
    {
        assert(p <= 0x800) by (nonlinear_arith)
            requires
                p * top <= n,
                top >= 0x20_0000_0000_0000,
                n <= 0xffff_ffff_ffff_ffff,
        ;
        assert((2 * p) * (top / 2) <= p * top) by (nonlinear_arith)
            requires
                p >= 0,
                top >= 0,
        ;
        proof {
            lemma_pow2_unfold(k + 1);
            k = k + 1;
        }
        top = top / 2;
        p = p * 2;
    }
    proof {
        lemma_excess_bound(n as nat, k, p as nat);
    }
    let d: u128 = round_half_even_exec(n as u128, p);
    assert(d * p <= n + p) by (nonlinear_arith)
        requires
            d <= (n as u128) / p + 1,
            p > 0,
    ;
    d * p
}

/// The dropped bits weigh no more than the number itself.
proof fn lemma_excess_bound(n: nat, k: nat, p: nat)
    requires
        excess_bits(n) == k,
        p == pow2(k),
    ensures
        p == 1 || 1 < p <= n,
    decreases n,
{
    lemma2_to64();
    if n >= 0x20_0000_0000_0000 {
        lemma_pow2_unfold(k);
        lemma_excess_bound(n / 2, (k - 1) as nat, pow2((k - 1) as nat));
    }
}

/// A quotient by one million that is scaled up by `p` and down again stays small.
proof fn lemma_tenths_bound(a: nat, p: nat, significand: nat)
    requires
        p >= 1,
        significand <= (a * p) / 1_000_000 + 1,
    ensures
        10 * significand / p <= 10 * (a / 1_000_000 + 2),
{
    let whole = a / 1_000_000;
    assert((a * p) / 1_000_000 <= (whole + 1) * p) by (nonlinear_arith)
        requires
            a < 1_000_000 * (whole + 1),
            p >= 1,
    ;
    assert(10 * significand / p <= 10 * (whole + 2)) by (nonlinear_arith)
        requires
            significand <= (whole + 1) * p + 1,
            p >= 1,
    ;
}

/// Computes `tenths`.
fn tenths_exec(micro: u64) -> (r: u128)
    ensures
        r == tenths(micro as nat),
        r <= 0xffff_ffff_ffff_ffff,
{
    let a: u128 = nearest_double_exec(micro);
    let mut b: u128 = a;
    let mut p: u128 = 1;
    let ghost mut s: nat = 0;
    proof {
        lemma2_to64();
    }
    while b != 0 && b < LEAST_NUMERATOR
        invariant
            p == pow2(s),
            1 <= p,
            b == a * p,
            b <= 2 * LEAST_NUMERATOR,
            a >= 1 ==> p <= b,
            a == 0 ==> p == 1,
            quotient_places(a as nat) == s + quotient_places(b as nat),
        decreases (if b < LEAST_NUMERATOR { LEAST_NUMERATOR - b } else { 0 }),
    {
        proof {
            lemma_pow2_unfold(s + 1);
            s = s + 1;
            assert(a * (p * 2) == 2 * (a * p)) by (nonlinear_arith);
        }
        b = b * 2;
        p = p * 2;
    }
    let significand: u128 = round_half_even_exec(b, 1_000_000);
    let t: u128 = round_half_even_exec(10 * significand, p);
    proof {
        lemma_tenths_bound(a as nat, p as nat, significand as nat);
    }
    t
}

/// Formats micro-units (µWh or µAh) as a one-decimal text in the whole unit.
pub fn format_micro_capacity(micro: u64, unit: &str) -> (r: String)
    ensures
        r@ == micro_capacity_text(micro as nat, unit@),
{
    let t: u128 = tenths_exec(micro);
    let mut r = text::decimal_text((t / 10) as u64);
    r.append(".");
    r.append(text::decimal_text((t % 10) as u64).as_str());
    r.append(" ");
    r.append(unit);
    r
}

proof fn lemma_round_half_even(p: nat, q: nat)
    requires
        q > 0,
    ensures
        -(q as int) <= 2 * (round_half_even(p, q) * q - p) <= q,
{
    let d = p / q;
    let r = p % q;
    assert(p == d * q + r && 0 <= r < q) by (nonlinear_arith)
        requires
            d == p / q,
            r == p % q,
            q > 0,
    ;
    assert((d + 1) * q == d * q + q) by (nonlinear_arith);
}

proof fn lemma_quotient_places(a: nat)
    requires
        0 < a < LEAST_NUMERATOR,
    ensures
        a * pow2(quotient_places(a)) >= LEAST_NUMERATOR,
    decreases LEAST_NUMERATOR - a,
{
    let s = quotient_places(a);
    let t = quotient_places(2 * a);
    lemma_pow2_unfold(s);
    assert(a * (2 * pow2(t)) == 2 * a * pow2(t)) by (nonlinear_arith);
    if 2 * a < LEAST_NUMERATOR {
        lemma_quotient_places(2 * a);
    } else {
        lemma2_to64();
        assert(2 * a * 1 == 2 * a);
    }
}

/// The shown figure is never more than half a tenth away from the true capacity, for every
/// capacity below 2^53 micro-units.
pub proof fn shown_capacity_is_accurate(micro: nat)
    requires
        micro < 0x20_0000_0000_0000,
    ensures
        -50_000 <= tenths(micro) * 100_000 - micro <= 50_000,
{
    lemma2_to64();
    let a = nearest_double(micro);
    assert(excess_bits(micro) == 0);
    assert(round_half_even(micro, 1) == micro);
    assert(micro * 1 == micro) by (nonlinear_arith);
    assert(a == micro);
    let p = pow2(quotient_places(a));
    let significand = round_half_even(a * p, 1_000_000);
    let t = round_half_even(10 * significand, p);
    lemma_pow2_pos(quotient_places(a));
    lemma_round_half_even(a * p, 1_000_000);
    lemma_round_half_even(10 * significand, p);
    if a > 0 {
        lemma_quotient_places(a);
        assert(p > 500_000) by (nonlinear_arith)
            requires
                a * p >= 4_503_599_627_370_496_000_000,
                a < 0x20_0000_0000_0000,
        ;
        let e = t * 100_000 - micro;
        assert(e * p == 100_000 * (t * p - 10 * significand) + (significand * 1_000_000 - micro
            * p)) by (nonlinear_arith)
            requires
                e == t * 100_000 - micro,
        ;
        assert(-50_001 < e < 50_001) by (nonlinear_arith)
            requires
                -50_000 * p - 500_000 <= e * p <= 50_000 * p + 500_000,
                p > 500_000,
        ;
    } else {
        assert(0 * p == 0);
        assert(0nat / p == 0) by (nonlinear_arith)
            requires
                p > 0,
        ;
    }
}

/// The shown figure is never more than half a tenth and 3100 micro-units away from the true
/// capacity, however large.
pub proof fn shown_capacity_is_close(micro: u64)
    ensures
        -53_100 <= tenths(micro as nat) * 100_000 - micro <= 53_100,
{
    lemma2_to64();
    let n = micro as nat;
    let k = excess_bits(n);
    let q = pow2(k);
    let a = nearest_double(n);
    lemma_pow2_pos(k);
    lemma_excess_is_small(n, k);
    lemma_round_half_even(n, q);
    assert(-1024 <= a - n <= 1024);
    let p = pow2(quotient_places(a));
    let significand = round_half_even(a * p, 1_000_000);
    let t = round_half_even(10 * significand, p);
    lemma_pow2_pos(quotient_places(a));
    lemma_round_half_even(a * p, 1_000_000);
    lemma_round_half_even(10 * significand, p);
    if a > 0 {
        lemma_quotient_places(a);
        assert(p >= 244) by (nonlinear_arith)
            requires
                a * p >= 4_503_599_627_370_496_000_000,
                a <= 0x1_0000_0000_0000_0400,
        ;
        let e = t * 100_000 - a;
        assert(e * p == 100_000 * (t * p - 10 * significand) + (significand * 1_000_000 - a * p))
            by (nonlinear_arith)
            requires
                e == t * 100_000 - a,
        ;
        assert(-52_050 <= e <= 52_050) by (nonlinear_arith)
            requires
                -50_000 * p - 500_000 <= e * p <= 50_000 * p + 500_000,
                p >= 244,
        ;
    } else {
        assert(0 * p == 0);
        assert(0nat / p == 0) by (nonlinear_arith)
            requires
                p > 0,
        ;
    }
}

/// A number of 64 bits has at most eleven that do not fit in a significand.
proof fn lemma_excess_is_small(n: nat, k: nat)
    requires
        n <= u64::MAX,
        k == excess_bits(n),
    ensures
        pow2(k) <= 2048,
{
    lemma2_to64();
    reveal_with_fuel(excess_bits, 13);
}

/// The remaining capacity in percent of the design capacity, capped at one hundred; unknown
/// when the design capacity is zero.
pub open spec fn health_percent(full: nat, design: nat) -> Option<u8> {
    if design == 0 {
        None
    } else if full * 100 / design > 100 {
        Some(100)
    } else {
        Some((full * 100 / design) as u8)
    }
}

/// Estimates wear: the current full capacity as a percentage of the design capacity.
pub fn battery_health_percent(full: u64, design: u64) -> (r: Option<u8>)
    requires
        full * 100 <= u64::MAX || design == 0,
    ensures
        r == health_percent(full as nat, design as nat),
{
    if design == 0 {
        return None;
    }
    let percent: u64 = (full * 100) / design;
    if percent > 100 {
        Some(100)
    } else {
        Some(percent as u8)
    }
}

/// Health never exceeds one hundred percent, reaches it when the battery still holds its
/// design capacity, and does not fall when the full capacity grows.
pub proof fn health_is_bounded_and_monotone(full: nat, more: nat, design: nat)
    requires
        design > 0,
        full <= more,
    ensures
        health_percent(full, design)->0 <= 100,
        full >= design ==> health_percent(full, design)->0 == 100,
        health_percent(full, design)->0 <= health_percent(more, design)->0,
{
    assert(full * 100 / design <= more * 100 / design) by (nonlinear_arith)
        requires
            full <= more,
            design > 0,
    ;
    if full >= design {
        assert(full * 100 / design >= 100) by (nonlinear_arith)
            requires
                full >= design,
                design > 0,
        ;
    }
}

/// Wear is the whole number of percent that the full capacity makes of the design capacity, with
/// the rest dropped and never more than one hundred; it is unknown exactly where the design
/// capacity is zero.
pub proof fn health_is_the_whole_percentage(full: nat, design: nat)
    ensures
        health_percent(full, design) is None <==> design == 0,
        health_percent(full, design) matches Some(h) ==> {
            &&& full < design ==> h * design <= 100 * full < (h + 1) * design
            &&& full >= design ==> h == 100
        },
{
    if design > 0 {
        let q = full * 100 / design;
        assert(q * design <= full * 100 < (q + 1) * design) by (nonlinear_arith)
            requires
                q == full * 100 / design,
                design > 0,
        ;
        if full < design {
            assert(q <= 100) by (nonlinear_arith)
                requires
                    q * design <= full * 100,
                    full < design,
            ;
        } else {
            assert(q >= 100) by (nonlinear_arith)
                requires
                    full * 100 < (q + 1) * design,
                    full >= design,
            ;
        }
    }
}

/// `k` is the integer nearest to `p / q`, and even where two are equally near.
pub open spec fn is_nearest(k: nat, p: nat, q: nat) -> bool {
    &&& -(q as int) <= 2 * (k * q - p) <= q
    &&& 2 * (k * q - p) == q || 2 * (k * q - p) == -(q as int) ==> k % 2 == 0
}

proof fn lemma_is_nearest(p: nat, q: nat)
    requires
        q > 0,
    ensures
        is_nearest(round_half_even(p, q), p, q),
{
    let d = p / q;
    let r = p % q;
    lemma_round_half_even(p, q);
    assert(p == d * q + r && 0 <= r < q) by (nonlinear_arith)
        requires
            d == p / q,
            r == p % q,
            q > 0,
    ;
    assert((d + 1) * q == d * q + q) by (nonlinear_arith);
}

/// How a capacity comes to be shown: the parts of the two doubles on the way and the digits.
pub struct Figure {
    /// The significand of the double nearest to the capacity, and its power of two.
    pub micro: nat,
    pub scale: nat,
    /// The significand of that double divided by one million, and its binary places.
    pub quotient: nat,
    pub places: nat,
    /// The digits before and behind the point.
    pub whole: nat,
    pub tenth: nat,
}

impl Figure {
    /// Every step gives the nearest number of at most 53 bits, and the digits are those nearest
    /// to the last one.
    pub open spec fn shows(self, micro: nat) -> bool {
        &&& is_nearest(self.micro, micro, pow2(self.scale))
        &&& self.micro <= 0x20_0000_0000_0000
        &&& self.scale > 0 ==> self.micro >= 0x10_0000_0000_0000
        &&& is_nearest(
            self.quotient,
            self.micro * pow2(self.scale) * pow2(self.places),
            1_000_000,
        )
        &&& self.quotient <= 0x20_0000_0000_0000
        &&& micro > 0 ==> self.quotient >= 0x10_0000_0000_0000
        &&& is_nearest(10 * self.whole + self.tenth, 10 * self.quotient, pow2(self.places))
        &&& self.tenth < 10
    }
}

proof fn lemma_excess_bits(n: nat)
    ensures
        ({
            let k = excess_bits(n);
            &&& n < 0x20_0000_0000_0000 * pow2(k)
            &&& k > 0 ==> n >= 0x10_0000_0000_0000 * pow2(k)
        }),
    decreases n,
{
    lemma2_to64();
    let k = excess_bits(n);
    if n >= 0x20_0000_0000_0000 {
        lemma_excess_bits(n / 2);
        lemma_pow2_unfold(k);
        let h = excess_bits(n / 2);
        assert(pow2(k) == 2 * pow2(h));
        if h == 0 {
            assert(pow2(h) == 1);
        }
    }
}

proof fn lemma_quotient_is_small(a: nat)
    requires
        0 < a < LEAST_NUMERATOR,
    ensures
        a * pow2(quotient_places(a)) < 2 * LEAST_NUMERATOR,
    decreases LEAST_NUMERATOR - a,
{
    let s = quotient_places(a);
    let t = quotient_places(2 * a);
    lemma2_to64();
    lemma_pow2_unfold(s);
    assert(a * (2 * pow2(t)) == 2 * a * pow2(t)) by (nonlinear_arith);
    if 2 * a < LEAST_NUMERATOR {
        lemma_quotient_is_small(2 * a);
    } else {
        assert(2 * a * 1 == 2 * a);
    }
}

/// A capacity is shown as its whole part, a point, one digit and the unit that was asked for. The
/// digits are those that double precision gives for one millionth of it.
pub proof fn capacity_is_shown_in_its_unit(micro: u64, unit: Seq<char>) -> (f: Figure)
    ensures
        f.shows(micro as nat),
        micro_capacity_text(micro as nat, unit) == text::decimal(f.whole) + "."@ + text::decimal(
            f.tenth,
        ) + " "@ + unit,
        -53_100 <= (10 * f.whole + f.tenth) * 100_000 - micro <= 53_100,
        micro < 0x20_0000_0000_0000 ==> -50_000 <= (10 * f.whole + f.tenth) * 100_000 - micro
            <= 50_000,
{
    lemma2_to64();
    let n = micro as nat;
    let k = excess_bits(n);
    let q = pow2(k);
    let m = round_half_even(n, q);
    let a = nearest_double(n);
    let s = quotient_places(a);
    let p = pow2(s);
    let c = round_half_even(a * p, 1_000_000);
    let t = tenths(n);
    lemma_pow2_pos(k);
    lemma_pow2_pos(s);
    lemma_is_nearest(n, q);
    lemma_is_nearest(a * p, 1_000_000);
    lemma_is_nearest(10 * c, p);
    lemma_excess_bits(n);
    lemma_excess_is_small(n, k);
    assert(m <= 0x20_0000_0000_0000) by (nonlinear_arith)
        requires
            2 * (m * q - n) <= q,
            n < 0x20_0000_0000_0000 * q,
            q > 0,
    ;
    if k > 0 {
        assert(m >= 0x10_0000_0000_0000) by (nonlinear_arith)
            requires
                -(q as int) <= 2 * (m * q - n),
                n >= 0x10_0000_0000_0000 * q,
                q > 0,
        ;
    }
    if n > 0 {
        if k == 0 {
            assert(q == 1);
            assert(round_half_even(n, 1) == n);
        }
        assert(a > 0) by (nonlinear_arith)
            requires
                a == m * q,
                m > 0,
                q > 0,
        ;
        assert(a < LEAST_NUMERATOR) by (nonlinear_arith)
            requires
                a == m * q,
                m <= 0x20_0000_0000_0000,
                0 < q <= 2048,
        ;
        lemma_quotient_places(a);
        lemma_quotient_is_small(a);
    } else {
        assert(q == 1);
        assert(m == 0);
        assert(a == 0);
        assert(a * p == 0);
    }
    shown_capacity_is_close(micro);
    if micro < 0x20_0000_0000_0000 {
        shown_capacity_is_accurate(n);
    }
    assert(10 * (t / 10) + t % 10 == t);
    Figure {
        micro: m,
        scale: k,
        quotient: c,
        places: s,
        whole: t / 10,
        tenth: t % 10,
    }
}

} // verus!

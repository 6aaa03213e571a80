//! Exact rational scalars. Every coordinate, zoom factor and matrix entry in
//! this library is a `Rat`: a fraction of two `i64`s with a positive
//! denominator. Specifications speak about the mathematical value through the
//! ghost type `Qv` (an unbounded numerator/denominator pair) and the
//! cross-multiplication equality `q_eq`; executable arithmetic is checked and
//! reports when a result cannot be represented, instead of overflowing.

use vstd::prelude::*;

verus! {

/// Ghost-level rational value: an unbounded fraction. All spec functions in
/// the library describe results as `Qv` values up to `q_eq`.
pub ghost struct Qv {
    pub n: int,
    pub d: int,
}

/// A `Qv` is well formed when its denominator is positive; every `Qv` built
/// by the spec functions below from well-formed operands is well formed.
pub open spec fn q_wf(a: Qv) -> bool {
    a.d > 0
}

/// Equality of fractions by cross multiplication. On well-formed values this
/// is the usual equality of rational numbers.
pub open spec fn q_eq(a: Qv, b: Qv) -> bool {
    a.n * b.d == b.n * a.d
}

pub open spec fn q_le(a: Qv, b: Qv) -> bool {
    a.n * b.d <= b.n * a.d
}

pub open spec fn q_lt(a: Qv, b: Qv) -> bool {
    a.n * b.d < b.n * a.d
}

pub open spec fn q_int(i: int) -> Qv {
    Qv { n: i, d: 1 }
}

pub open spec fn q_add(a: Qv, b: Qv) -> Qv {
    Qv { n: a.n * b.d + b.n * a.d, d: a.d * b.d }
}

pub open spec fn q_sub(a: Qv, b: Qv) -> Qv {
    Qv { n: a.n * b.d - b.n * a.d, d: a.d * b.d }
}

pub open spec fn q_mul(a: Qv, b: Qv) -> Qv {
    Qv { n: a.n * b.n, d: a.d * b.d }
}

/// Division; meaningful only for `b.n != 0`. The sign of `b.n` moves into the
/// numerator so that the result stays well formed.
pub open spec fn q_div(a: Qv, b: Qv) -> Qv {
    if b.n >= 0 {
        Qv { n: a.n * b.d, d: a.d * b.n }
    } else {
        Qv { n: -(a.n * b.d), d: a.d * -b.n }
    }
}

pub open spec fn q_neg(a: Qv) -> Qv {
    Qv { n: -a.n, d: a.d }
}

/// An executable rational number. The numerator is bounded symmetrically
/// (`-i64::MAX ..= i64::MAX`) so that magnitudes survive negation, and the
/// denominator is strictly positive.
#[derive(Clone, Copy, Debug)]
pub struct Rat {
    pub num: i64,
    pub den: i64,
}

impl Rat {
    /// The representation invariant every library function maintains.
    pub open spec fn inv(&self) -> bool {
        &&& -i64::MAX <= self.num <= i64::MAX
        &&& 1 <= self.den <= i64::MAX
    }

    /// The mathematical value this `Rat` represents.
    pub open spec fn q(&self) -> Qv {
        Qv { n: self.num as int, d: self.den as int }
    }

    /// The integer `i` as a rational.
    pub fn from_int(i: i64) -> (r: Rat)
        requires
            i > i64::MIN,
        ensures
            r.inv(),
            r.q() == q_int(i as int),
    {
        Rat { num: i, den: 1 }
    }

    /// Exact comparison: `self <= rhs` as rational numbers.
    pub fn le(&self, rhs: &Rat) -> (r: bool)
        requires
            self.inv(),
            rhs.inv(),
        ensures
            r == q_le(self.q(), rhs.q()),
    {
        proof {
            lemma_mul_bound(self.num as int, rhs.den as int, i64::MAX as int);
            lemma_mul_bound(rhs.num as int, self.den as int, i64::MAX as int);
        }
        (self.num as i128) * (rhs.den as i128) <= (rhs.num as i128) * (self.den as i128)
    }

    /// Exact comparison: `self < rhs` as rational numbers.
    pub fn lt(&self, rhs: &Rat) -> (r: bool)
        requires
            self.inv(),
            rhs.inv(),
        ensures
            r == q_lt(self.q(), rhs.q()),
    {
        proof {
            lemma_mul_bound(self.num as int, rhs.den as int, i64::MAX as int);
            lemma_mul_bound(rhs.num as int, self.den as int, i64::MAX as int);
        }
        (self.num as i128) * (rhs.den as i128) < (rhs.num as i128) * (self.den as i128)
    }

    /// Exact equality of the represented values (`1/2` equals `2/4`).
    pub fn same_value(&self, rhs: &Rat) -> (r: bool)
        requires
            self.inv(),
            rhs.inv(),
        ensures
            r == q_eq(self.q(), rhs.q()),
    {
        proof {
            lemma_mul_bound(self.num as int, rhs.den as int, i64::MAX as int);
            lemma_mul_bound(rhs.num as int, self.den as int, i64::MAX as int);
        }
        (self.num as i128) * (rhs.den as i128) == (rhs.num as i128) * (self.den as i128)
    }
}

/// Bound on a product from bounds on its factors.
pub proof fn lemma_mul_bound(a: int, b: int, m: int) by (nonlinear_arith)
    requires
        -m <= a <= m,
        -m <= b <= m,
        0 <= m,
    ensures
        -(m * m) <= a * b <= m * m,
{
}

/// Euclid's greatest common divisor, as a specification.
pub open spec fn gcd_s(a: nat, b: nat) -> nat
    decreases b,
{
    if b == 0 {
        a
    } else {
        gcd_s(b, a % b)
    }
}

/// `gcd_s` yields a positive common divisor whenever one argument is positive.
pub proof fn lemma_gcd_divides(a: nat, b: nat)
    ensures
        a > 0 || b > 0 ==> gcd_s(a, b) > 0,
        b > 0 ==> a % gcd_s(a, b) == 0 && b % gcd_s(a, b) == 0,
        b == 0 && a > 0 ==> a % gcd_s(a, b) == 0 && b % gcd_s(a, b) == 0,
    decreases b,
{
    if b == 0 {
        if a > 0 {
            vstd::arithmetic::div_mod::lemma_mod_self_0(a as int);
            vstd::arithmetic::div_mod::lemma_small_mod(0, a);
        }
    } else {
        let r = a % b;
        lemma_gcd_divides(b, r);
        let g = gcd_s(b, r);
        assert(g > 0);
        vstd::arithmetic::div_mod::lemma_fundamental_div_mod(a as int, b as int);
        vstd::arithmetic::div_mod::lemma_fundamental_div_mod(b as int, g as int);
        vstd::arithmetic::div_mod::lemma_fundamental_div_mod(r as int, g as int);
        let q1 = b as int / g as int;
        let q2 = r as int / g as int;
        assert(a as int == g as int * (q1 * (a as int / b as int) + q2)) by (nonlinear_arith)
            requires
                a as int == b as int * (a as int / b as int) + r as int,
                b as int == g as int * q1,
                r as int == g as int * q2,
        ;
        vstd::arithmetic::div_mod::lemma_mod_multiples_basic(
            q1 * (a as int / b as int) + q2,
            g as int,
        );
        assert(a as int == (q1 * (a as int / b as int) + q2) * g as int) by (nonlinear_arith)
            requires
                a as int == g as int * (q1 * (a as int / b as int) + q2),
        ;
    }
}

/// Whether a ghost rational, brought to lowest terms, fits the `Rat`
/// representation. This is exactly the condition under which the checked
/// operations below succeed.
pub open spec fn q_fits(q: Qv) -> bool
    recommends
        q_wf(q),
{
    let m = vstd::math::abs(q.n);
    let g = gcd_s(m, q.d as nat);
    &&& m / g <= i64::MAX
    &&& q.d as nat / g <= i64::MAX
}

/// The representative in lowest terms that the checked operations below
/// return: both components divided by their greatest common divisor.
pub open spec fn q_red(q: Qv) -> Qv
    recommends
        q_wf(q),
{
    let m = vstd::math::abs(q.n);
    let g = gcd_s(m, q.d as nat);
    if q.n < 0 {
        Qv { n: -((m / g) as int), d: (q.d as nat / g) as int }
    } else {
        Qv { n: (m / g) as int, d: (q.d as nat / g) as int }
    }
}

/// Reduction keeps the value and well-formedness.
pub proof fn lemma_q_red(q: Qv)
    requires
        q_wf(q),
    ensures
        q_wf(q_red(q)),
        q_eq(q_red(q), q),
{
    let m = vstd::math::abs(q.n);
    let g = gcd_s(m, q.d as nat);
    lemma_gcd_divides(m, q.d as nat);
    vstd::arithmetic::div_mod::lemma_fundamental_div_mod(m as int, g as int);
    vstd::arithmetic::div_mod::lemma_fundamental_div_mod(q.d, g as int);
    let mg = m as int / g as int;
    let dg = q.d / g as int;
    assert(dg >= 1) by {
        if dg <= 0 {
            assert(q.d == g as int * dg) by (nonlinear_arith)
                requires
                    q.d == g as int * dg + 0,
            ;
            assert(g as int * dg <= 0) by (nonlinear_arith)
                requires
                    g as int > 0,
                    dg <= 0,
            ;
        }
    }
    if q.n < 0 {
        assert((-mg) * q.d == q.n * dg) by (nonlinear_arith)
            requires
                m as int == g as int * mg,
                q.d == g as int * dg,
                q.n == -(m as int),
        ;
    } else {
        assert(mg * q.d == q.n * dg) by (nonlinear_arith)
            requires
                m as int == g as int * mg,
                q.d == g as int * dg,
                q.n == m as int,
        ;
    }
}

/// Euclid's algorithm.
fn gcd(a: u128, b: u128) -> (g: u128)
    ensures
        g as nat == gcd_s(a as nat, b as nat),
{
    let mut x = a;
    let mut y = b;
    while y != 0
        invariant
            gcd_s(x as nat, y as nat) == gcd_s(a as nat, b as nat),
        decreases y,
    {
        let t = x % y;
        x = y;
        y = t;
    }
    x
}

/// Bring `n / d` to lowest terms and pack it into a `Rat`, or report that its
/// reduced form is still out of range.
fn reduce(n: i128, d: i128) -> (r: Option<Rat>)
    requires
        n > i128::MIN,
        d >= 1,
    ensures
        r matches Some(v) ==> v.inv() && q_eq(v.q(), Qv { n: n as int, d: d as int }) && v.q()
            == q_red(Qv { n: n as int, d: d as int }),
        (r is Some) == q_fits(Qv { n: n as int, d: d as int }),
{
    let neg = n < 0;
    let m: u128 = if neg {
        (-n) as u128
    } else {
        n as u128
    };
    let dd: u128 = d as u128;
    let g = gcd(m, dd);
    proof {
        lemma_gcd_divides(m as nat, dd as nat);
        assert(vstd::math::abs(n as int) == m as int);
    }
    let m2 = m / g;
    let d2 = dd / g;
    proof {
        vstd::arithmetic::div_mod::lemma_fundamental_div_mod(m as int, g as int);
        vstd::arithmetic::div_mod::lemma_fundamental_div_mod(dd as int, g as int);
        assert(d2 >= 1) by {
            if d2 == 0 {
                assert(dd as int == g as int * 0 + 0);
            }
        }
    }
    if m2 <= (i64::MAX as u128) && d2 <= (i64::MAX as u128) {
        let num: i64 = if neg {
            -(m2 as i64)
        } else {
            m2 as i64
        };
        let v = Rat { num, den: d2 as i64 };
        proof {
            assert(v.num as int * d == n as int * (v.den as int)) by (nonlinear_arith)
                requires
                    m as int == g as int * m2 as int,
                    d as int == g as int * d2 as int,
                    dd == d,
                    g >= 1,
                    v.den as int == d2 as int,
                    neg ==> n as int == -(m as int) && v.num as int == -(m2 as int),
                    !neg ==> n as int == m as int && v.num as int == m2 as int,
            ;
        }
        Some(v)
    } else {
        None
    }
}

impl Rat {
    /// Build the rational `num / den`. Succeeds exactly when `den` is
    /// positive and the value in lowest terms fits the representation.
    pub fn new(num: i64, den: i64) -> (r: Option<Rat>)
        ensures
            r matches Some(v) ==> v.inv() && q_eq(v.q(), Qv { n: num as int, d: den as int })
                && v.q() == q_red(Qv { n: num as int, d: den as int }),
            (r is Some) == (den >= 1 && q_fits(Qv { n: num as int, d: den as int })),
    {
        if den >= 1 {
            reduce(num as i128, den as i128)
        } else {
            None
        }
    }

    /// Exact negation; always representable.
    pub fn neg(&self) -> (r: Rat)
        requires
            self.inv(),
        ensures
            r.inv(),
            r.q() == q_neg(self.q()),
    {
        Rat { num: -self.num, den: self.den }
    }

    /// Checked addition: `None` exactly when the reduced sum is out of range.
    pub fn checked_add(&self, rhs: &Rat) -> (r: Option<Rat>)
        requires
            self.inv(),
            rhs.inv(),
        ensures
            r matches Some(v) ==> v.inv() && q_eq(v.q(), q_add(self.q(), rhs.q())) && v.q()
                == q_red(q_add(self.q(), rhs.q())),
            (r is Some) == q_fits(q_add(self.q(), rhs.q())),
    {
        proof {
            lemma_mul_bound(self.num as int, rhs.den as int, i64::MAX as int);
            lemma_mul_bound(rhs.num as int, self.den as int, i64::MAX as int);
            lemma_mul_bound(self.den as int, rhs.den as int, i64::MAX as int);
            assert(self.den as int * rhs.den as int >= 1) by (nonlinear_arith)
                requires
                    self.den >= 1,
                    rhs.den >= 1,
            ;
        }
        let n = (self.num as i128) * (rhs.den as i128) + (rhs.num as i128) * (self.den as i128);
        let d = (self.den as i128) * (rhs.den as i128);
        reduce(n, d)
    }

    /// Checked subtraction: `None` exactly when the reduced difference is out
    /// of range.
    pub fn checked_sub(&self, rhs: &Rat) -> (r: Option<Rat>)
        requires
            self.inv(),
            rhs.inv(),
        ensures
            r matches Some(v) ==> v.inv() && q_eq(v.q(), q_sub(self.q(), rhs.q())) && v.q()
                == q_red(q_sub(self.q(), rhs.q())),
            (r is Some) == q_fits(q_sub(self.q(), rhs.q())),
    {
        proof {
            lemma_mul_bound(self.num as int, rhs.den as int, i64::MAX as int);
            lemma_mul_bound(rhs.num as int, self.den as int, i64::MAX as int);
            lemma_mul_bound(self.den as int, rhs.den as int, i64::MAX as int);
            assert(self.den as int * rhs.den as int >= 1) by (nonlinear_arith)
                requires
                    self.den >= 1,
                    rhs.den >= 1,
            ;
        }
        let n = (self.num as i128) * (rhs.den as i128) - (rhs.num as i128) * (self.den as i128);
        let d = (self.den as i128) * (rhs.den as i128);
        reduce(n, d)
    }

    /// Checked multiplication: `None` exactly when the reduced product is out
    /// of range.
    pub fn checked_mul(&self, rhs: &Rat) -> (r: Option<Rat>)
        requires
            self.inv(),
            rhs.inv(),
        ensures
            r matches Some(v) ==> v.inv() && q_eq(v.q(), q_mul(self.q(), rhs.q())) && v.q()
                == q_red(q_mul(self.q(), rhs.q())),
            (r is Some) == q_fits(q_mul(self.q(), rhs.q())),
    {
        proof {
            lemma_mul_bound(self.num as int, rhs.num as int, i64::MAX as int);
            lemma_mul_bound(self.den as int, rhs.den as int, i64::MAX as int);
            assert(self.den as int * rhs.den as int >= 1) by (nonlinear_arith)
                requires
                    self.den >= 1,
                    rhs.den >= 1,
            ;
        }
        let n = (self.num as i128) * (rhs.num as i128);
        let d = (self.den as i128) * (rhs.den as i128);
        reduce(n, d)
    }

    /// Checked division by a nonzero rational: `None` exactly when the
    /// reduced quotient is out of range.
    pub fn checked_div(&self, rhs: &Rat) -> (r: Option<Rat>)
        requires
            self.inv(),
            rhs.inv(),
            rhs.num != 0,
        ensures
            r matches Some(v) ==> v.inv() && q_eq(v.q(), q_div(self.q(), rhs.q())) && v.q()
                == q_red(q_div(self.q(), rhs.q())),
            (r is Some) == q_fits(q_div(self.q(), rhs.q())),
    {
        proof {
            lemma_mul_bound(self.num as int, rhs.den as int, i64::MAX as int);
            lemma_mul_bound(self.den as int, rhs.num as int, i64::MAX as int);
            lemma_mul_bound(self.den as int, -(rhs.num as int), i64::MAX as int);
            assert(rhs.num > 0 ==> self.den as int * rhs.num as int >= 1) by (nonlinear_arith)
                requires
                    self.den >= 1,
            ;
            assert(rhs.num < 0 ==> self.den as int * -(rhs.num as int) >= 1) by (nonlinear_arith)
                requires
                    self.den >= 1,
            ;
        }
        if rhs.num > 0 {
            let n = (self.num as i128) * (rhs.den as i128);
            let d = (self.den as i128) * (rhs.num as i128);
            reduce(n, d)
        } else {
            let n = -((self.num as i128) * (rhs.den as i128));
            let d = (self.den as i128) * (-(rhs.num as i128));
            reduce(n, d)
        }
    }

    /// Clamp into the closed interval `[lo, hi]`, by rational comparison.
    pub fn clamp(&self, lo: &Rat, hi: &Rat) -> (r: Rat)
        requires
            self.inv(),
            lo.inv(),
            hi.inv(),
        ensures
            r.inv(),
            r.q() == q_clamp(self.q(), lo.q(), hi.q()),
    {
        if self.lt(lo) {
            *lo
        } else if hi.lt(self) {
            *hi
        } else {
            *self
        }
    }
}

/// The clamp of `x` into `[lo, hi]`, as a value.
pub open spec fn q_clamp(x: Qv, lo: Qv, hi: Qv) -> Qv {
    if q_lt(x, lo) {
        lo
    } else if q_lt(hi, x) {
        hi
    } else {
        x
    }
}
/// Multiplying both sides of an equation by the same factor.
proof fn lemma_mul_eq(p: int, q: int, r: int)
    requires
        p == q,
    ensures
        p * r == q * r,
{
}

/// The spec operations keep denominators positive.
pub proof fn lemma_q_wf_ops(a: Qv, b: Qv)
    requires
        q_wf(a),
        q_wf(b),
    ensures
        q_wf(q_add(a, b)),
        q_wf(q_sub(a, b)),
        q_wf(q_mul(a, b)),
        q_wf(q_neg(a)),
        b.n != 0 ==> q_wf(q_div(a, b)),
{
    vstd::arithmetic::mul::lemma_mul_strictly_positive(a.d, b.d);
    if b.n > 0 {
        vstd::arithmetic::mul::lemma_mul_strictly_positive(a.d, b.n);
    }
    if b.n < 0 {
        vstd::arithmetic::mul::lemma_mul_strictly_positive(a.d, -b.n);
    }
}

/// `q_eq` is transitive across a well-formed middle value.
pub proof fn lemma_q_eq_trans(a: Qv, b: Qv, c: Qv)
    requires
        q_wf(b),
        q_eq(a, b),
        q_eq(b, c),
    ensures
        q_eq(a, c),
{
    lemma_mul_eq(a.n * b.d, b.n * a.d, c.d);
    lemma_mul_eq(b.n * c.d, c.n * b.d, a.d);
    assert((a.n * b.d) * c.d == (a.n * c.d) * b.d) by (nonlinear_arith);
    assert((b.n * a.d) * c.d == (b.n * c.d) * a.d) by (nonlinear_arith);
    assert((c.n * b.d) * a.d == (c.n * a.d) * b.d) by (nonlinear_arith);
    vstd::arithmetic::mul::lemma_mul_equality_converse(b.d, a.n * c.d, c.n * a.d);
}

/// Addition respects `q_eq`.
pub proof fn lemma_q_add_cong(a: Qv, b: Qv, x: Qv, y: Qv)
    requires
        q_eq(a, x),
        q_eq(b, y),
    ensures
        q_eq(q_add(a, b), q_add(x, y)),
{
    vstd::arithmetic::mul::lemma_mul_is_distributive_add_other_way(
        x.d * y.d,
        a.n * b.d,
        b.n * a.d,
    );
    vstd::arithmetic::mul::lemma_mul_is_distributive_add_other_way(
        a.d * b.d,
        x.n * y.d,
        y.n * x.d,
    );
    assert((a.n * b.d) * (x.d * y.d) == (a.n * x.d) * (b.d * y.d)) by (nonlinear_arith);
    assert((b.n * a.d) * (x.d * y.d) == (b.n * y.d) * (a.d * x.d)) by (nonlinear_arith);
    assert((x.n * y.d) * (a.d * b.d) == (x.n * a.d) * (b.d * y.d)) by (nonlinear_arith);
    assert((y.n * x.d) * (a.d * b.d) == (y.n * b.d) * (a.d * x.d)) by (nonlinear_arith);
    lemma_mul_eq(a.n * x.d, x.n * a.d, b.d * y.d);
    lemma_mul_eq(b.n * y.d, y.n * b.d, a.d * x.d);
}

/// Subtraction respects `q_eq`.
pub proof fn lemma_q_sub_cong(a: Qv, b: Qv, x: Qv, y: Qv)
    requires
        q_eq(a, x),
        q_eq(b, y),
    ensures
        q_eq(q_sub(a, b), q_sub(x, y)),
{
    vstd::arithmetic::mul::lemma_mul_is_distributive_sub_other_way(
        x.d * y.d,
        a.n * b.d,
        b.n * a.d,
    );
    vstd::arithmetic::mul::lemma_mul_is_distributive_sub_other_way(
        a.d * b.d,
        x.n * y.d,
        y.n * x.d,
    );
    assert((a.n * b.d) * (x.d * y.d) == (a.n * x.d) * (b.d * y.d)) by (nonlinear_arith);
    assert((b.n * a.d) * (x.d * y.d) == (b.n * y.d) * (a.d * x.d)) by (nonlinear_arith);
    assert((x.n * y.d) * (a.d * b.d) == (x.n * a.d) * (b.d * y.d)) by (nonlinear_arith);
    assert((y.n * x.d) * (a.d * b.d) == (y.n * b.d) * (a.d * x.d)) by (nonlinear_arith);
    lemma_mul_eq(a.n * x.d, x.n * a.d, b.d * y.d);
    lemma_mul_eq(b.n * y.d, y.n * b.d, a.d * x.d);
}

/// Multiplication respects `q_eq`.
pub proof fn lemma_q_mul_cong(a: Qv, b: Qv, x: Qv, y: Qv)
    requires
        q_eq(a, x),
        q_eq(b, y),
    ensures
        q_eq(q_mul(a, b), q_mul(x, y)),
{
    assert((a.n * b.n) * (x.d * y.d) == (a.n * x.d) * (b.n * y.d)) by (nonlinear_arith);
    lemma_mul_eq(a.n * x.d, x.n * a.d, b.n * y.d);
    assert((x.n * a.d) * (b.n * y.d) == (b.n * y.d) * (x.n * a.d)) by (nonlinear_arith);
    lemma_mul_eq(b.n * y.d, y.n * b.d, x.n * a.d);
    assert((y.n * b.d) * (x.n * a.d) == (x.n * y.n) * (a.d * b.d)) by (nonlinear_arith);
}

/// The sign of the numerator is a property of the value, not the
/// representative.
pub proof fn lemma_q_eq_same_sign(b: Qv, y: Qv)
    requires
        q_wf(b),
        q_wf(y),
        q_eq(b, y),
    ensures
        b.n > 0 <==> y.n > 0,
        b.n < 0 <==> y.n < 0,
        b.n == 0 <==> y.n == 0,
{
    assert(b.n > 0 ==> b.n * y.d > 0) by (nonlinear_arith)
        requires
            y.d > 0,
    ;
    assert(b.n < 0 ==> b.n * y.d < 0) by (nonlinear_arith)
        requires
            y.d > 0,
    ;
    assert(b.n == 0 ==> b.n * y.d == 0) by (nonlinear_arith);
    assert(y.n > 0 ==> y.n * b.d > 0) by (nonlinear_arith)
        requires
            b.d > 0,
    ;
    assert(y.n < 0 ==> y.n * b.d < 0) by (nonlinear_arith)
        requires
            b.d > 0,
    ;
    assert(y.n == 0 ==> y.n * b.d == 0) by (nonlinear_arith);
}

proof fn lemma_q_div_cong_core(a: Qv, b: Qv, x: Qv, y: Qv)
    requires
        q_eq(a, x),
        q_eq(b, y),
    ensures
        (a.n * b.d) * (x.d * y.n) == (x.n * y.d) * (a.d * b.n),
{
    assert((a.n * b.d) * (x.d * y.n) == (a.n * x.d) * (b.d * y.n)) by (nonlinear_arith);
    lemma_mul_eq(a.n * x.d, x.n * a.d, b.d * y.n);
    assert((x.n * a.d) * (b.d * y.n) == (y.n * b.d) * (x.n * a.d)) by (nonlinear_arith);
    lemma_mul_eq(y.n * b.d, b.n * y.d, x.n * a.d);
    assert((b.n * y.d) * (x.n * a.d) == (x.n * y.d) * (a.d * b.n)) by (nonlinear_arith);
}

/// Division respects `q_eq` (for nonzero divisors).
pub proof fn lemma_q_div_cong(a: Qv, b: Qv, x: Qv, y: Qv)
    requires
        q_wf(a),
        q_wf(b),
        q_wf(x),
        q_wf(y),
        q_eq(a, x),
        q_eq(b, y),
        b.n != 0,
    ensures
        q_eq(q_div(a, b), q_div(x, y)),
{
    lemma_q_eq_same_sign(b, y);
    lemma_q_div_cong_core(a, b, x, y);
    if b.n > 0 {
        assert(q_div(a, b) == Qv { n: a.n * b.d, d: a.d * b.n });
        assert(q_div(x, y) == Qv { n: x.n * y.d, d: x.d * y.n });
    } else {
        assert((-(a.n * b.d)) * (x.d * -y.n) == (a.n * b.d) * (x.d * y.n)) by (nonlinear_arith);
        assert((-(x.n * y.d)) * (a.d * -b.n) == (x.n * y.d) * (a.d * b.n)) by (nonlinear_arith);
    }
}

/// `(a - x) - (a - y)` is `y - x`.
pub proof fn lemma_q_sub_of_subs(a: Qv, x: Qv, y: Qv)
    ensures
        q_eq(q_sub(q_sub(a, x), q_sub(a, y)), q_sub(y, x)),
{
    let big = (a.d * x.d) * (a.d * y.d);
    vstd::arithmetic::mul::lemma_mul_is_distributive_sub_other_way(
        a.d * y.d,
        a.n * x.d,
        x.n * a.d,
    );
    vstd::arithmetic::mul::lemma_mul_is_distributive_sub_other_way(
        a.d * x.d,
        a.n * y.d,
        y.n * a.d,
    );
    assert((a.n * x.d) * (a.d * y.d) == (a.n * y.d) * (a.d * x.d)) by (nonlinear_arith);
    let lnum = (a.n * x.d - x.n * a.d) * (a.d * y.d) - (a.n * y.d - y.n * a.d) * (a.d * x.d);
    let mid = (y.n * a.d) * (a.d * x.d) - (x.n * a.d) * (a.d * y.d);
    assert(lnum == mid);
    lemma_mul_eq(lnum, mid, y.d * x.d);
    vstd::arithmetic::mul::lemma_mul_is_distributive_sub_other_way(
        y.d * x.d,
        (y.n * a.d) * (a.d * x.d),
        (x.n * a.d) * (a.d * y.d),
    );
    assert(((y.n * a.d) * (a.d * x.d)) * (y.d * x.d) == (y.n * x.d) * ((a.d * x.d) * (a.d
        * y.d))) by (nonlinear_arith);
    assert(((x.n * a.d) * (a.d * y.d)) * (y.d * x.d) == (x.n * y.d) * ((a.d * x.d) * (a.d
        * y.d))) by (nonlinear_arith);
    vstd::arithmetic::mul::lemma_mul_is_distributive_sub_other_way(
        big,
        y.n * x.d,
        x.n * y.d,
    );
}

/// Multiplication distributes over subtraction.
pub proof fn lemma_q_mul_sub_distrib(a: Qv, b: Qv, c: Qv)
    ensures
        q_eq(q_mul(q_sub(a, b), c), q_sub(q_mul(a, c), q_mul(b, c))),
{
    let big = (a.d * c.d) * (b.d * c.d);
    vstd::arithmetic::mul::lemma_mul_is_distributive_sub_other_way(c.n, a.n * b.d, b.n * a.d);
    lemma_mul_eq(
        (a.n * b.d - b.n * a.d) * c.n,
        (a.n * b.d) * c.n - (b.n * a.d) * c.n,
        big,
    );
    vstd::arithmetic::mul::lemma_mul_is_distributive_sub_other_way(
        big,
        (a.n * b.d) * c.n,
        (b.n * a.d) * c.n,
    );
    lemma_mul_rearrange(a.n, b.d, c.n, a.d, c.d, b.d, c.d);
    lemma_mul_rearrange(b.n, a.d, c.n, a.d, c.d, b.d, c.d);
    vstd::arithmetic::mul::lemma_mul_is_distributive_sub_other_way(
        (a.d * b.d) * c.d,
        (a.n * c.n) * (b.d * c.d),
        (b.n * c.n) * (a.d * c.d),
    );
}

/// `(a - b) + b` is `a`, and `(a + b) - a` is `b`.
pub proof fn lemma_q_add_sub_cancel(a: Qv, b: Qv)
    ensures
        q_eq(q_add(q_sub(a, b), b), a),
        q_eq(q_sub(q_add(a, b), a), b),
{
    assert(((a.n * b.d - b.n * a.d) * b.d + b.n * (a.d * b.d)) * a.d == a.n * ((a.d * b.d)
        * b.d)) by (nonlinear_arith);
    assert(((a.n * b.d + b.n * a.d) * a.d - a.n * (a.d * b.d)) * b.d == b.n * ((a.d * b.d)
        * a.d)) by (nonlinear_arith);
}

/// Rearranging a seven-factor product.
proof fn lemma_mul_rearrange(p: int, q: int, r: int, u: int, v: int, w: int, t: int)
    ensures
        ((p * q) * r) * ((u * v) * (w * t)) == ((p * r) * (q * t)) * ((u * w) * v),
{
    broadcast use vstd::arithmetic::mul::group_mul_properties;

    assert((p * q) * r == (p * r) * q) by (nonlinear_arith);
    assert((u * v) * (w * t) == ((u * w) * v) * t) by (nonlinear_arith);
    assert(((p * r) * q) * (((u * w) * v) * t) == ((p * r) * (q * t)) * ((u * w) * v));
}

/// Multiplication associates, as representatives.
pub proof fn lemma_q_mul_assoc(a: Qv, b: Qv, c: Qv)
    ensures
        q_mul(a, q_mul(b, c)) == q_mul(q_mul(a, b), c),
{
    vstd::arithmetic::mul::lemma_mul_is_associative(a.n, b.n, c.n);
    vstd::arithmetic::mul::lemma_mul_is_associative(a.d, b.d, c.d);
}

/// Addition associates, up to `q_eq`.
pub proof fn lemma_q_add_assoc(a: Qv, b: Qv, c: Qv)
    ensures
        q_eq(q_add(q_add(a, b), c), q_add(a, q_add(b, c))),
{
    vstd::arithmetic::mul::lemma_mul_is_distributive_add_other_way(c.d, a.n * b.d, b.n * a.d);
    vstd::arithmetic::mul::lemma_mul_is_distributive_add_other_way(a.d, b.n * c.d, c.n * b.d);
    vstd::arithmetic::mul::lemma_mul_is_associative(a.n, b.d, c.d);
    vstd::arithmetic::mul::lemma_mul_is_associative(a.d, b.d, c.d);
    assert((b.n * a.d) * c.d == (b.n * c.d) * a.d) by (nonlinear_arith);
    assert(c.n * (a.d * b.d) == (c.n * b.d) * a.d) by (nonlinear_arith);
    assert(q_add(q_add(a, b), c).n == q_add(a, q_add(b, c)).n);
    assert(q_add(q_add(a, b), c).d == q_add(a, q_add(b, c)).d);
}

/// Multiplication distributes over addition.
pub proof fn lemma_q_mul_add_distrib(a: Qv, b: Qv, c: Qv)
    ensures
        q_eq(q_mul(q_add(a, b), c), q_add(q_mul(a, c), q_mul(b, c))),
{
    vstd::arithmetic::mul::lemma_mul_is_distributive_add_other_way(c.n, a.n * b.d, b.n * a.d);
    lemma_mul_eq(
        (a.n * b.d + b.n * a.d) * c.n,
        (a.n * b.d) * c.n + (b.n * a.d) * c.n,
        (a.d * c.d) * (b.d * c.d),
    );
    vstd::arithmetic::mul::lemma_mul_is_distributive_add_other_way(
        (a.d * c.d) * (b.d * c.d),
        (a.n * b.d) * c.n,
        (b.n * a.d) * c.n,
    );
    lemma_mul_rearrange(a.n, b.d, c.n, a.d, c.d, b.d, c.d);
    lemma_mul_rearrange(b.n, a.d, c.n, a.d, c.d, b.d, c.d);
    vstd::arithmetic::mul::lemma_mul_is_distributive_add_other_way(
        (a.d * b.d) * c.d,
        (a.n * c.n) * (b.d * c.d),
        (b.n * c.n) * (a.d * c.d),
    );
}

/// Rearranging a seven-factor product, second shape.
proof fn lemma_mul_rearrange2(p: int, q: int, r: int, s: int, u: int, v: int)
    ensures
        ((p * q) * (r * s)) * (u * v) == (p * v) * ((u * q) * (r * s)),
{
    broadcast use vstd::arithmetic::mul::group_mul_properties;

    assert((p * q) * (r * s) == (q * (r * s)) * p) by (nonlinear_arith);
    assert(((q * (r * s)) * p) * (u * v) == (p * v) * ((q * (r * s)) * u));
    assert((q * (r * s)) * u == (u * q) * (r * s)) by (nonlinear_arith);
}

/// Rearranging a seven-factor product, third shape.
proof fn lemma_mul_rearrange3(p: int, q: int, u: int, r: int, s: int, t: int)
    ensures
        ((p * q) * (u * r)) * (s * t) == (p * s) * ((u * q) * (r * t)),
{
    broadcast use vstd::arithmetic::mul::group_mul_properties;

    assert((p * q) * (u * r) == ((u * q) * r) * p) by (nonlinear_arith);
    assert((((u * q) * r) * p) * (s * t) == (p * s) * (((u * q) * r) * t));
    vstd::arithmetic::mul::lemma_mul_is_associative(u * q, r, t);
}

/// `(a - b) + (b - c)` is `a - c`.
pub proof fn lemma_q_sub_chain(a: Qv, b: Qv, c: Qv)
    ensures
        q_eq(q_add(q_sub(a, b), q_sub(b, c)), q_sub(a, c)),
{
    vstd::arithmetic::mul::lemma_mul_is_distributive_sub_other_way(
        b.d * c.d,
        a.n * b.d,
        b.n * a.d,
    );
    vstd::arithmetic::mul::lemma_mul_is_distributive_sub_other_way(
        a.d * b.d,
        b.n * c.d,
        c.n * b.d,
    );
    assert((b.n * a.d) * (b.d * c.d) == (b.n * c.d) * (a.d * b.d)) by (nonlinear_arith);
    let lnum = (a.n * b.d - b.n * a.d) * (b.d * c.d) + (b.n * c.d - c.n * b.d) * (a.d * b.d);
    let mid = (a.n * b.d) * (b.d * c.d) - (c.n * b.d) * (a.d * b.d);
    assert(lnum == mid);
    lemma_mul_eq(lnum, mid, a.d * c.d);
    vstd::arithmetic::mul::lemma_mul_is_distributive_sub_other_way(
        a.d * c.d,
        (a.n * b.d) * (b.d * c.d),
        (c.n * b.d) * (a.d * b.d),
    );
    lemma_mul_rearrange2(a.n, b.d, b.d, c.d, a.d, c.d);
    lemma_mul_rearrange3(c.n, b.d, a.d, b.d, a.d, c.d);
    vstd::arithmetic::mul::lemma_mul_is_distributive_sub_other_way(
        (a.d * b.d) * (b.d * c.d),
        a.n * c.d,
        c.n * a.d,
    );
}

/// `(a / b) * b` and `(a * b) / b` are `a`, for nonzero `b`.
pub proof fn lemma_q_div_mul_cancel(a: Qv, b: Qv)
    requires
        b.n != 0,
    ensures
        q_eq(q_mul(q_div(a, b), b), a),
        q_eq(q_div(q_mul(a, b), b), a),
{
    if b.n > 0 {
        assert(((a.n * b.d) * b.n) * a.d == a.n * ((a.d * b.n) * b.d)) by (nonlinear_arith);
        assert(((a.n * b.n) * b.d) * a.d == a.n * ((a.d * b.d) * b.n)) by (nonlinear_arith);
    } else {
        assert(((-(a.n * b.d)) * b.n) * a.d == a.n * ((a.d * -b.n) * b.d)) by (nonlinear_arith);
        assert((-((a.n * b.n) * b.d)) * a.d == a.n * ((a.d * b.d) * -b.n)) by (nonlinear_arith);
    }
}

} // verus!

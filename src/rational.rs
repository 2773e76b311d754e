use vstd::prelude::*;

use crate::error::{ErrorKind, SchemeError};
use vstd::arithmetic::div_mod::{
    lemma_fundamental_div_mod, lemma_fundamental_div_mod_converse, lemma_mod_multiples_basic,
    lemma_small_mod,
};

verus! {

/// An exact fraction. A well-formed value has a positive denominator and is in
/// lowest terms, so two well-formed values are equal exactly when the fractions
/// they denote are equal.
#[derive(Clone, Copy, Debug, PartialEq, Eq, Structural)]
pub struct Rational {
    pub numerator: i64,
    pub denominator: i64,
}

/// Euclid's greatest common divisor.
pub open spec fn gcd(a: nat, b: nat) -> nat
    decreases a,
{
    if a == 0 {
        b
    } else {
        gcd(b % a, a)
    }
}

pub open spec fn abs(x: int) -> nat {
    if x < 0 {
        (-x) as nat
    } else {
        x as nat
    }
}

/// The largest magnitude that the intermediate products are kept under.
pub open spec fn wide_bound() -> int {
    0x7fff_ffff_ffff_ffff_ffff_ffff_ffff_ffff
}

/// The fraction `n / d` in lowest terms with a positive denominator, or the
/// reason it has none: a zero denominator, or a reduced form outside `i64`.
pub open spec fn normalize(n: int, d: int) -> Result<Rational, ErrorKind> {
    if d == 0 {
        Err(ErrorKind::DivideByZero)
    } else {
        let g = gcd(abs(n), abs(d));
        let qn = abs(n) / g;
        let qd = abs(d) / g;
        let num: int = if (n < 0) != (d < 0) {
            -qn
        } else {
            qn as int
        };
        if i64::MIN <= num <= i64::MAX && qd <= i64::MAX {
            Ok(Rational { numerator: num as i64, denominator: qd as i64 })
        } else {
            Err(ErrorKind::Overflow)
        }
    }
}

/// `normalize`, for a numerator and denominator that fit the intermediate width.
pub open spec fn normalize_wide(n: int, d: int) -> Result<Rational, ErrorKind> {
    if -wide_bound() <= n <= wide_bound() && -wide_bound() <= d <= wide_bound() {
        normalize(n, d)
    } else {
        Err(ErrorKind::Overflow)
    }
}

pub open spec fn rat_add(a: Rational, b: Rational) -> Result<Rational, ErrorKind> {
    normalize_wide(
        a.numerator * b.denominator + b.numerator * a.denominator,
        a.denominator * b.denominator,
    )
}

pub open spec fn rat_sub(a: Rational, b: Rational) -> Result<Rational, ErrorKind> {
    normalize_wide(
        a.numerator * b.denominator - b.numerator * a.denominator,
        a.denominator * b.denominator,
    )
}

pub open spec fn rat_mul(a: Rational, b: Rational) -> Result<Rational, ErrorKind> {
    normalize_wide(a.numerator * b.numerator, a.denominator * b.denominator)
}

pub open spec fn rat_div(a: Rational, b: Rational) -> Result<Rational, ErrorKind> {
    normalize_wide(a.numerator * b.denominator, b.numerator * a.denominator)
}

/// The cross-multiplied comparison `a.n * b.d < b.n * a.d`. When both
/// denominators are positive, as in every well-formed value, this is the order
/// of the fractions; otherwise it is only this comparison of products.
pub open spec fn rat_lt(a: Rational, b: Rational) -> bool {
    a.numerator * b.denominator < b.numerator * a.denominator
}

impl Rational {
    /// A positive denominator and no common factor above one.
    pub open spec fn wf(&self) -> bool {
        self.denominator > 0 && gcd(abs(self.numerator as int), self.denominator as nat) == 1
    }

    /// Whether this value and `n / d` denote the same fraction.
    pub open spec fn denotes(&self, n: int, d: int) -> bool {
        self.numerator * d == n * self.denominator
    }

    /// The integer `n`.
    pub fn from_int(n: i64) -> (r: Rational)
        ensures
            r.wf(),
            r == (Rational { numerator: n, denominator: 1 }),
    {
        proof {
            lemma_gcd_one(abs(n as int));
        }
        Rational { numerator: n, denominator: 1 }
    }

    /// The fraction `n / d` in lowest terms.
    pub fn new(n: i64, d: i64) -> (r: Result<Rational, SchemeError>)
        ensures
            rat_result(r) == normalize(n as int, d as int),
            rat_messages(r),
    {
        reduce(n as i128, d as i128)
    }

    pub fn add(&self, other: &Rational) -> (r: Result<Rational, SchemeError>)
        ensures
            rat_result(r) == rat_add(*self, *other),
            rat_messages(r),
    {
        proof {
            lemma_wide_products(self.numerator, other.denominator, other.numerator, self.denominator);
            lemma_wide_products(self.denominator, other.denominator, other.numerator, self.numerator);
        }
        let p1 = self.numerator as i128 * other.denominator as i128;
        let p2 = other.numerator as i128 * self.denominator as i128;
        let d = self.denominator as i128 * other.denominator as i128;
        match p1.checked_add(p2) {
            Some(n) => reduce(n, d),
            None => Err(SchemeError::simple(ErrorKind::Overflow, "Number out of range")),
        }
    }

    pub fn sub(&self, other: &Rational) -> (r: Result<Rational, SchemeError>)
        ensures
            rat_result(r) == rat_sub(*self, *other),
            rat_messages(r),
    {
        proof {
            lemma_wide_products(self.numerator, other.denominator, other.numerator, self.denominator);
            lemma_wide_products(self.denominator, other.denominator, other.numerator, self.numerator);
        }
        let p1 = self.numerator as i128 * other.denominator as i128;
        let p2 = other.numerator as i128 * self.denominator as i128;
        let d = self.denominator as i128 * other.denominator as i128;
        match p1.checked_sub(p2) {
            Some(n) => reduce(n, d),
            None => Err(SchemeError::simple(ErrorKind::Overflow, "Number out of range")),
        }
    }

    pub fn mul(&self, other: &Rational) -> (r: Result<Rational, SchemeError>)
        ensures
            rat_result(r) == rat_mul(*self, *other),
            rat_messages(r),
    {
        proof {
            lemma_wide_products(self.numerator, other.numerator, self.denominator, other.denominator);
        }
        let n = self.numerator as i128 * other.numerator as i128;
        let d = self.denominator as i128 * other.denominator as i128;
        reduce(n, d)
    }

    pub fn div(&self, other: &Rational) -> (r: Result<Rational, SchemeError>)
        ensures
            rat_result(r) == rat_div(*self, *other),
            rat_messages(r),
    {
        proof {
            lemma_wide_products(self.numerator, other.denominator, other.numerator, self.denominator);
        }
        let n = self.numerator as i128 * other.denominator as i128;
        let d = other.numerator as i128 * self.denominator as i128;
        reduce(n, d)
    }

    /// The cross-multiplied comparison of this value with `other`, which is the
    /// order of the fractions when both denominators are positive.
    pub fn less_than(&self, other: &Rational) -> (r: bool)
        ensures
            r == rat_lt(*self, *other),
    {
        proof {
            lemma_wide_products(self.numerator, other.denominator, other.numerator, self.denominator);
        }
        (self.numerator as i128) * (other.denominator as i128) < (other.numerator as i128) * (
        self.denominator as i128)
    }
}

/// The message of an arithmetic error is fixed by its kind.
pub open spec fn rat_messages(r: Result<Rational, SchemeError>) -> bool {
    match r {
        Ok(_) => true,
        Err(e) => {
            &&& (e.kind == ErrorKind::DivideByZero || e.kind == ErrorKind::Overflow)
            &&& e.kind == ErrorKind::DivideByZero ==> e.message@ == "Divide by zero"@
            &&& e.kind == ErrorKind::Overflow ==> e.message@ == "Number out of range"@
        },
    }
}

/// The outcome of an arithmetic operation, with the error reduced to its kind.
pub open spec fn rat_result(r: Result<Rational, SchemeError>) -> Result<Rational, ErrorKind> {
    match r {
        Ok(q) => Ok(q),
        Err(e) => Err(e.kind),
    }
}

pub proof fn lemma_wide_products(a: i64, b: i64, c: i64, d: i64)
    ensures
        -0x4000_0000_0000_0000_0000_0000_0000_0000 <= (a as int) * (b as int)
            <= 0x4000_0000_0000_0000_0000_0000_0000_0000,
        -0x4000_0000_0000_0000_0000_0000_0000_0000 <= (c as int) * (d as int)
            <= 0x4000_0000_0000_0000_0000_0000_0000_0000,
        -0x4000_0000_0000_0000_0000_0000_0000_0000 <= (a as int) * (c as int)
            <= 0x4000_0000_0000_0000_0000_0000_0000_0000,
        -0x4000_0000_0000_0000_0000_0000_0000_0000 <= (b as int) * (d as int)
            <= 0x4000_0000_0000_0000_0000_0000_0000_0000,
{
    assert(-0x4000_0000_0000_0000_0000_0000_0000_0000 <= (a as int) * (b as int)
        <= 0x4000_0000_0000_0000_0000_0000_0000_0000) by (nonlinear_arith)
        requires
            -0x8000_0000_0000_0000 <= a <= 0x7fff_ffff_ffff_ffff,
            -0x8000_0000_0000_0000 <= b <= 0x7fff_ffff_ffff_ffff,
    ;
    assert(-0x4000_0000_0000_0000_0000_0000_0000_0000 <= (c as int) * (d as int)
        <= 0x4000_0000_0000_0000_0000_0000_0000_0000) by (nonlinear_arith)
        requires
            -0x8000_0000_0000_0000 <= c <= 0x7fff_ffff_ffff_ffff,
            -0x8000_0000_0000_0000 <= d <= 0x7fff_ffff_ffff_ffff,
    ;
    assert(-0x4000_0000_0000_0000_0000_0000_0000_0000 <= (a as int) * (c as int)
        <= 0x4000_0000_0000_0000_0000_0000_0000_0000) by (nonlinear_arith)
        requires
            -0x8000_0000_0000_0000 <= a <= 0x7fff_ffff_ffff_ffff,
            -0x8000_0000_0000_0000 <= c <= 0x7fff_ffff_ffff_ffff,
    ;
    assert(-0x4000_0000_0000_0000_0000_0000_0000_0000 <= (b as int) * (d as int)
        <= 0x4000_0000_0000_0000_0000_0000_0000_0000) by (nonlinear_arith)
        requires
            -0x8000_0000_0000_0000 <= b <= 0x7fff_ffff_ffff_ffff,
            -0x8000_0000_0000_0000 <= d <= 0x7fff_ffff_ffff_ffff,
    ;
}

/// Euclid's algorithm on machine words.
fn gcd_u128(a: u128, b: u128) -> (r: u128)
    ensures
        r == gcd(a as nat, b as nat),
{
    let mut x = a;
    let mut y = b;
    while x != 0
        invariant
            gcd(x as nat, y as nat) == gcd(a as nat, b as nat),
        decreases x,
    {
        let t = y % x;
        y = x;
        x = t;
    }
    y
}

/// The fraction `n / d` reduced, as `normalize` states it.
fn reduce(n: i128, d: i128) -> (r: Result<Rational, SchemeError>)
    ensures
        rat_result(r) == normalize_wide(n as int, d as int),
        rat_messages(r),
{
    if n == i128::MIN || d == i128::MIN {
        return Err(SchemeError::simple(ErrorKind::Overflow, "Number out of range"));
    }
    if d == 0 {
        return Err(SchemeError::simple(ErrorKind::DivideByZero, "Divide by zero"));
    }
    let an: u128 = if n < 0 {
        (-n) as u128
    } else {
        n as u128
    };
    let ad: u128 = if d < 0 {
        (-d) as u128
    } else {
        d as u128
    };
    let g = gcd_u128(an, ad);
    proof {
        lemma_gcd_divides(an as nat, ad as nat);
    }
    let qn = an / g;
    let qd = ad / g;
    let max: u128 = 0x7fff_ffff_ffff_ffff;
    if qd > max || qn > max + 1 || (qn == max + 1 && (n < 0) == (d < 0)) {
        return Err(SchemeError::simple(ErrorKind::Overflow, "Number out of range"));
    }
    let num: i64 = if (n < 0) != (d < 0) {
        if qn == max + 1 {
            i64::MIN
        } else {
            -(qn as i64)
        }
    } else {
        qn as i64
    };
    Ok(Rational { numerator: num, denominator: qd as i64 })
}

proof fn lemma_gcd_one(a: nat)
    ensures
        gcd(a, 1) == 1,
{
    if a > 1 {
        lemma_small_mod(1, a);
        lemma_mod_multiples_basic(a as int, 1);
        assert(gcd(a, 1) == gcd(1, a));
        assert(gcd(1, a) == gcd(a % 1, 1));
        assert(gcd(0, 1) == 1);
    } else if a == 1 {
        lemma_mod_multiples_basic(1, 1);
        assert(gcd(1, 1) == gcd(0, 1));
    }
}

/// The result of Euclid's algorithm divides both arguments, and is positive
/// unless both are zero.
pub proof fn lemma_gcd_divides(a: nat, b: nat)
    ensures
        a > 0 || b > 0 ==> gcd(a, b) > 0,
        gcd(a, b) > 0 ==> a % gcd(a, b) == 0 && b % gcd(a, b) == 0,
    decreases a,
{
    if a == 0 {
        if b > 0 {
            lemma_mod_multiples_basic(0, b as int);
            lemma_mod_multiples_basic(1, b as int);
        }
    } else {
        lemma_gcd_divides(b % a, a);
        let g = gcd(a, b);
        assert(g == gcd(b % a, a));
        assert(g > 0);
        lemma_fundamental_div_mod(a as int, g as int);
        lemma_fundamental_div_mod((b % a) as int, g as int);
        lemma_fundamental_div_mod(b as int, a as int);
        let ka: nat = a / g;
        let kr: nat = (b % a) / g;
        let q = b as int / a as int;
        assert(b as int == (q * ka + kr) * g) by (nonlinear_arith)
            requires
                a as int == g * ka,
                (b % a) as int == g * kr,
                b as int == a * q + (b % a) as int,
        ;
        assert(q >= 0) by (nonlinear_arith)
            requires
                b as int == a * q + (b % a) as int,
                a > 0,
                (b % a) < a,
                b >= 0,
        ;
        assert(q * ka + kr >= 0) by (nonlinear_arith)
            requires
                q >= 0,
                ka >= 0,
                kr >= 0,
        ;
        lemma_mod_multiples_basic(q * ka + kr, g as int);
    }
}

/// Euclid's algorithm commutes with scaling both arguments.
pub proof fn lemma_gcd_scale(k: nat, x: nat, y: nat)
    requires
        k > 0,
    ensures
        gcd(k * x, k * y) == k * gcd(x, y),
    decreases x,
{
    if x == 0 {
        assert(k * x == 0) by (nonlinear_arith)
            requires
                x == 0,
        ;
    } else {
        lemma_gcd_scale(k, y % x, x);
        assert(k * x > 0) by (nonlinear_arith)
            requires
                k > 0,
                x > 0,
        ;
        lemma_fundamental_div_mod(y as int, x as int);
        let q = y as int / x as int;
        let r = (y % x) as int;
        assert(k * y == q * (k * x) + k * r) by (nonlinear_arith)
            requires
                y == x * q + r,
        ;
        assert(0 <= k * r < k * x) by (nonlinear_arith)
            requires
                0 <= r < x,
                k > 0,
        ;
        lemma_fundamental_div_mod_converse((k * y) as int, (k * x) as int, q, k * r);
        assert((k * y) % (k * x) == k * (y % x));
    }
}

/// Dividing both arguments by their greatest common divisor leaves no common factor.
pub proof fn lemma_reduced_coprime(a: nat, b: nat)
    requires
        a > 0 || b > 0,
    ensures
        gcd(a / gcd(a, b), b / gcd(a, b)) == 1,
{
    let g = gcd(a, b);
    lemma_gcd_divides(a, b);
    lemma_fundamental_div_mod(a as int, g as int);
    lemma_fundamental_div_mod(b as int, g as int);
    let x = a / g;
    let y = b / g;
    assert(a == g * x && b == g * y);
    lemma_gcd_scale(g, x, y);
    let t = gcd(x, y);
    assert(g * t == g);
    assert(t == 1) by (nonlinear_arith)
        requires
            g * t == g,
            g > 0,
    ;
}

} // verus!

//! Arbitrary-precision rational numbers.
//!
//! A [`Number`] holds a sign and the limbs of a numerator and a denominator,
//! least significant limb first. The arithmetic itself is done by `malachite`;
//! each call into it is a small function below whose contract states the
//! result over the mathematical value of the limbs.

use vstd::prelude::*;
use malachite::{Natural, Rational};
use malachite::base::num::arithmetic::traits::Floor;
use malachite::base::num::basic::traits::Zero;
use malachite::base::num::conversion::traits::RoundingFrom;
use malachite::base::rounding_modes::RoundingMode;
use std::str::FromStr;

verus! {

/// The natural number that a sequence of 64-bit limbs stands for, least significant first.
pub open spec fn magnitude(limbs: Seq<u64>) -> nat
    decreases limbs.len(),
{
    if limbs.len() == 0 {
        0
    } else {
        limbs[0] as nat + 0x1_0000_0000_0000_0000 * magnitude(limbs.drop_first())
    }
}

/// No limb is wasted: the most significant limb, if there is one, is not zero.
pub open spec fn trimmed(limbs: Seq<u64>) -> bool {
    limbs.len() > 0 ==> limbs.last() != 0
}

/// The two naturals share no divisor above one.
pub open spec fn coprime(a: nat, b: nat) -> bool {
    forall|k: nat| k > 1 ==> !(#[trigger] (a % k) == 0 && b % k == 0)
}

/// The mathematical content of a [`Number`].
pub ghost struct NumberView {
    /// Whether the number is zero or above.
    pub positive: bool,
    pub numerator: Seq<u64>,
    pub denominator: Seq<u64>,
}

impl NumberView {
    /// The signed numerator.
    pub open spec fn top(self) -> int {
        if self.positive {
            magnitude(self.numerator) as int
        } else {
            -(magnitude(self.numerator) as int)
        }
    }

    /// The denominator.
    pub open spec fn bottom(self) -> int {
        magnitude(self.denominator) as int
    }

    /// The fraction is in its one normal form: a positive denominator, lowest
    /// terms, no wasted limbs, and no negative zero.
    pub open spec fn reduced(self) -> bool {
        &&& self.bottom() > 0
        &&& trimmed(self.numerator)
        &&& trimmed(self.denominator)
        &&& (self.positive || magnitude(self.numerator) > 0)
        &&& coprime(magnitude(self.numerator), magnitude(self.denominator))
    }

    /// Whether the number is a whole number.
    pub open spec fn whole(self) -> bool {
        self.denominator == seq![1u64]
    }

    /// `self < other`, by cross-multiplication.
    pub open spec fn below(self, other: NumberView) -> bool {
        self.top() * other.bottom() < other.top() * self.bottom()
    }

    /// `self` is the sum of `a` and `b`.
    pub open spec fn is_sum(self, a: NumberView, b: NumberView) -> bool {
        self.top() * (a.bottom() * b.bottom()) == (a.top() * b.bottom() + b.top() * a.bottom())
            * self.bottom()
    }

    /// `self` is the product of `a` and `b`.
    pub open spec fn is_product(self, a: NumberView, b: NumberView) -> bool {
        self.top() * (a.bottom() * b.bottom()) == (a.top() * b.top()) * self.bottom()
    }

    /// `self` is `a` divided by `b`.
    pub open spec fn is_quotient(self, a: NumberView, b: NumberView) -> bool {
        self.top() * (a.bottom() * b.top()) == (a.top() * b.bottom()) * self.bottom()
    }

    /// The content of the whole number `value`.
    pub open spec fn of_whole(value: u64) -> NumberView {
        NumberView {
            positive: true,
            numerator: if value == 0 {
                Seq::<u64>::empty()
            } else {
                seq![value]
            },
            denominator: seq![1u64],
        }
    }

    /// `self` is `factor` times `step`.
    pub open spec fn times_step(self, step: NumberView, factor: int) -> bool {
        self.top() * step.bottom() == factor * step.top() * self.bottom()
    }

    /// `self` is a whole multiple of `step`.
    pub open spec fn multiple_of(self, step: NumberView) -> bool {
        exists|factor: int| #[trigger] self.times_step(step, factor)
    }

    /// The fraction with the other sign; it need not be in normal form.
    pub open spec fn negated(self) -> NumberView {
        NumberView { positive: !self.positive, ..self }
    }

    /// `self` is the greatest whole number that is not above `a`.
    pub open spec fn is_floor(self, a: NumberView) -> bool {
        &&& self.bottom() == 1
        &&& self.top() * a.bottom() <= a.top()
        &&& a.top() < (self.top() + 1) * a.bottom()
    }

    /// The whole part, rounded towards zero.
    pub open spec fn truncated(self) -> int {
        if self.positive {
            self.top() / self.bottom()
        } else {
            -((-self.top()) / self.bottom())
        }
    }
}

/// What `malachite` reads out of a piece of text as a rational, if anything.
pub uninterp spec fn parsed_number(text: Seq<char>) -> Option<NumberView>;

/// How `malachite` writes a rational down.
pub uninterp spec fn number_text(value: NumberView) -> Seq<char>;

/// An arbitrary-precision rational number in normal form.
#[derive(Debug)]
pub struct Number {
    positive: bool,
    numerator: Vec<u64>,
    denominator: Vec<u64>,
}

impl View for Number {
    type V = NumberView;

    closed spec fn view(&self) -> NumberView {
        NumberView {
            positive: self.positive,
            numerator: self.numerator@,
            denominator: self.denominator@,
        }
    }
}

impl DeepView for Number {
    type V = NumberView;

    open spec fn deep_view(&self) -> NumberView {
        self@
    }
}

/// `Rational::from_str`: reads `n` or `n/d` with an optional sign; the result,
/// where there is one, is in normal form.
#[verifier::external_body]
fn rational_parse(text: &str) -> (out: Option<Number>)
    ensures
        out.deep_view() == parsed_number(text@),
        out matches Some(n) ==> n@.reduced(),
{
    match Rational::from_str(text) {
        Ok(z) => Some(Number {
            positive: z >= Rational::ZERO,
            numerator: z.numerator_ref().to_limbs_asc(),
            denominator: z.denominator_ref().to_limbs_asc(),
        }),
        Err(_) => None,
    }
}

/// `Rational::from_sign_and_naturals`: the same fraction in normal form; a zero
/// numerator gives a non-negative zero.
#[verifier::external_body]
fn rational_reduce(positive: bool, numerator: &Vec<u64>, denominator: &Vec<u64>) -> (out: Number)
    requires
        magnitude(denominator@) > 0,
    ensures
        out@.reduced(),
        magnitude(out@.numerator) * magnitude(denominator@) == magnitude(numerator@) * magnitude(
            out@.denominator,
        ),
        out@.positive == (positive || magnitude(numerator@) == 0),
{
    let (top, bottom) = (Natural::from_limbs_asc(numerator), Natural::from_limbs_asc(denominator));
    let z = Rational::from_sign_and_naturals(positive, top, bottom);
    let limbs = (z.numerator_ref().to_limbs_asc(), z.denominator_ref().to_limbs_asc());
    Number { positive: z >= Rational::ZERO, numerator: limbs.0, denominator: limbs.1 }
}

/// `Rational + Rational`: the sum, in normal form.
#[verifier::external_body]
fn rational_add(a: &Number, b: &Number) -> (out: Number)
    requires
        a@.bottom() > 0,
        b@.bottom() > 0,
    ensures
        out@.reduced(),
        out@.is_sum(a@, b@),
{
    let x = Rational::from_sign_and_naturals(a.positive, Natural::from_limbs_asc(&a.numerator), Natural::from_limbs_asc(&a.denominator));
    let y = Rational::from_sign_and_naturals(b.positive, Natural::from_limbs_asc(&b.numerator), Natural::from_limbs_asc(&b.denominator));
    let z = x + y;
    let limbs = (z.numerator_ref().to_limbs_asc(), z.denominator_ref().to_limbs_asc());
    Number { positive: z >= Rational::ZERO, numerator: limbs.0, denominator: limbs.1 }
}

/// `Rational * Rational`: the product, in normal form.
#[verifier::external_body]
fn rational_mul(a: &Number, b: &Number) -> (out: Number)
    requires
        a@.bottom() > 0,
        b@.bottom() > 0,
    ensures
        out@.reduced(),
        out@.is_product(a@, b@),
{
    let x = Rational::from_sign_and_naturals(a.positive, Natural::from_limbs_asc(&a.numerator), Natural::from_limbs_asc(&a.denominator));
    let y = Rational::from_sign_and_naturals(b.positive, Natural::from_limbs_asc(&b.numerator), Natural::from_limbs_asc(&b.denominator));
    let z = x * y;
    let limbs = (z.numerator_ref().to_limbs_asc(), z.denominator_ref().to_limbs_asc());
    Number { positive: z >= Rational::ZERO, numerator: limbs.0, denominator: limbs.1 }
}

/// `Rational / Rational`: the quotient, in normal form. The divisor is not zero.
#[verifier::external_body]
fn rational_div(a: &Number, b: &Number) -> (out: Number)
    requires
        a@.bottom() > 0,
        b@.bottom() > 0,
        b@.top() != 0,
    ensures
        out@.reduced(),
        out@.is_quotient(a@, b@),
{
    let x = Rational::from_sign_and_naturals(a.positive, Natural::from_limbs_asc(&a.numerator), Natural::from_limbs_asc(&a.denominator));
    let y = Rational::from_sign_and_naturals(b.positive, Natural::from_limbs_asc(&b.numerator), Natural::from_limbs_asc(&b.denominator));
    let z = x / y;
    let limbs = (z.numerator_ref().to_limbs_asc(), z.denominator_ref().to_limbs_asc());
    Number { positive: z >= Rational::ZERO, numerator: limbs.0, denominator: limbs.1 }
}

/// `Rational < Rational`: the order of the two fractions.
#[verifier::external_body]
fn rational_below(a: &Number, b: &Number) -> (out: bool)
    requires
        a@.bottom() > 0,
        b@.bottom() > 0,
    ensures
        out == a@.below(b@),
{
    let x = Rational::from_sign_and_naturals(a.positive, Natural::from_limbs_asc(&a.numerator), Natural::from_limbs_asc(&a.denominator));
    let y = Rational::from_sign_and_naturals(b.positive, Natural::from_limbs_asc(&b.numerator), Natural::from_limbs_asc(&b.denominator));
    x < y
}

/// `Rational::floor`: the greatest whole number that is not above the fraction.
#[verifier::external_body]
fn rational_floor(a: &Number) -> (out: Number)
    requires
        a@.bottom() > 0,
    ensures
        out@.reduced(),
        out@.whole(),
        out@.is_floor(a@),
{
    let x = Rational::from_sign_and_naturals(a.positive, Natural::from_limbs_asc(&a.numerator), Natural::from_limbs_asc(&a.denominator));
    let z = Rational::from(x.floor());
    let limbs = (z.numerator_ref().to_limbs_asc(), z.denominator_ref().to_limbs_asc());
    Number { positive: z >= Rational::ZERO, numerator: limbs.0, denominator: limbs.1 }
}

/// `usize::rounding_from(&Rational, Down)`: the whole part, rounded towards
/// zero; zero for a negative number, the largest `usize` for one too large.
#[verifier::external_body]
fn rational_to_usize(a: &Number) -> (out: usize)
    requires
        a@.bottom() > 0,
    ensures
        out as int == if a@.truncated() < 0 {
            0
        } else if a@.truncated() > usize::MAX as int {
            usize::MAX as int
        } else {
            a@.truncated()
        },
{
    let x = Rational::from_sign_and_naturals(a.positive, Natural::from_limbs_asc(&a.numerator), Natural::from_limbs_asc(&a.denominator));
    usize::rounding_from(&x, RoundingMode::Down).0
}

/// `isize::rounding_from(&Rational, Down)`: the whole part, rounded towards
/// zero and held to the range of `isize`.
#[verifier::external_body]
fn rational_to_isize(a: &Number) -> (out: isize)
    requires
        a@.bottom() > 0,
    ensures
        out as int == if a@.truncated() < isize::MIN as int {
            isize::MIN as int
        } else if a@.truncated() > isize::MAX as int {
            isize::MAX as int
        } else {
            a@.truncated()
        },
{
    let x = Rational::from_sign_and_naturals(a.positive, Natural::from_limbs_asc(&a.numerator), Natural::from_limbs_asc(&a.denominator));
    isize::rounding_from(&x, RoundingMode::Down).0
}

/// `Rational::to_string`: the decimal text of the fraction.
#[verifier::external_body]
fn rational_text(a: &Number) -> (out: String)
    requires
        a@.bottom() > 0,
    ensures
        out@ == number_text(a@),
{
    Rational::from_sign_and_naturals(a.positive, Natural::from_limbs_asc(&a.numerator), Natural::from_limbs_asc(&a.denominator)).to_string()
}

/// The limbs of one 64-bit value.
fn limbs_of(value: u64) -> (out: Vec<u64>)
    ensures
        magnitude(out@) == value,
        trimmed(out@),
        out@ == if value == 0 {
            Seq::<u64>::empty()
        } else {
            seq![value]
        },
{
    let mut out: Vec<u64> = Vec::new();
    if value != 0 {
        out.push(value);
        assert(out@ =~= seq![value]);
        assert(out@.drop_first() =~= Seq::<u64>::empty());
        assert(magnitude(out@) == value) by {
            reveal_with_fuel(magnitude, 2);
        }
    }
    out
}

impl Number {
    /// Every number is in normal form.
    #[verifier::type_invariant]
    closed spec fn normal(self) -> bool {
        self@.reduced()
    }

    /// The fraction `numerator / denominator`, negated unless `positive`.
    pub fn ratio(positive: bool, numerator: u64, denominator: u64) -> (out: Option<Number>)
        ensures
            (out is None) == (denominator == 0),
            out matches Some(n) ==> {
                &&& n@.reduced()
                &&& n@.top() * denominator == n@.bottom() * if positive {
                    numerator as int
                } else {
                    -(numerator as int)
                }
            },
    {
        if denominator == 0 {
            return None;
        }
        let top = limbs_of(numerator);
        let bottom = limbs_of(denominator);
        let out = rational_reduce(positive, &top, &bottom);
        assert(out@.top() * denominator == out@.bottom() * if positive {
            numerator as int
        } else {
            -(numerator as int)
        }) by (nonlinear_arith)
            requires
                magnitude(out@.numerator) * denominator == numerator * magnitude(
                    out@.denominator,
                ),
                out@.positive == (positive || numerator == 0),
                out@.top() == if out@.positive {
                    magnitude(out@.numerator) as int
                } else {
                    -(magnitude(out@.numerator) as int)
                },
                out@.bottom() == magnitude(out@.denominator),
                denominator > 0,
        {
        }
        Some(out)
    }

    /// The whole number `value`.
    pub fn whole(value: u64) -> (out: Number)
        ensures
            out@ == NumberView::of_whole(value),
            out@.reduced(),
            out@.whole(),
            out@.positive,
            out@.top() == value,
    {
        let numerator = limbs_of(value);
        let denominator = limbs_of(1);
        proof {
            lemma_unit(denominator@);
            assert forall|k: nat| k > 1 implies !(#[trigger] (magnitude(numerator@) % k) == 0
                && magnitude(denominator@) % k == 0) by {
                assert(1nat % k == 1) by (nonlinear_arith)
                    requires
                        k > 1,
                ;
            }
        }
        Number { positive: true, numerator, denominator }
    }

    /// Zero.
    pub fn zero() -> (out: Number)
        ensures
            out@ == NumberView::of_whole(0),
            out@.reduced(),
            out@.whole(),
            out@.top() == 0,
    {
        Number::whole(0)
    }

    /// One.
    pub fn one() -> (out: Number)
        ensures
            out@ == NumberView::of_whole(1),
            out@.reduced(),
            out@.whole(),
            out@.top() == 1,
    {
        Number::whole(1)
    }

    /// Every number is in normal form. This does nothing when run.
    pub fn attest(&self)
        ensures
            self@.reduced(),
    {
        proof {
            use_type_invariant(self);
        }
    }

    /// Reads a number written as `n` or `n/d` with an optional sign.
    pub fn parse(text: &str) -> (out: Option<Number>)
        ensures
            out.deep_view() == parsed_number(text@),
            out matches Some(n) ==> n@.reduced(),
    {
        rational_parse(text)
    }

    /// Whether the number is a whole number: its denominator is one.
    pub fn is_whole(&self) -> (out: bool)
        ensures
            out == self@.whole(),
    {
        let out = self.denominator.len() == 1 && self.denominator[0] == 1;
        assert(out ==> self.denominator@ =~= seq![1u64]);
        out
    }

    /// Whether the number is zero.
    pub fn is_zero(&self) -> (out: bool)
        ensures
            out == (self@.top() == 0),
    {
        proof {
            use_type_invariant(self);
            lemma_trimmed_zero(self.numerator@);
        }
        self.numerator.len() == 0
    }

    /// Whether the number is zero or above.
    pub fn is_positive(&self) -> (out: bool)
        ensures
            out == (self@.top() >= 0),
    {
        proof {
            use_type_invariant(self);
        }
        self.positive
    }

    /// Whether the two numbers are equal.
    pub fn equals(&self, other: &Number) -> (out: bool)
        ensures
            out == (self@ == other@),
    {
        let out = self.positive == other.positive && same_limbs(&self.numerator, &other.numerator)
            && same_limbs(&self.denominator, &other.denominator);
        out
    }

    /// `self + other`.
    pub fn plus(&self, other: &Number) -> (out: Number)
        ensures
            out@.reduced(),
            out@.is_sum(self@, other@),
    {
        proof {
            use_type_invariant(self);
            use_type_invariant(other);
        }
        rational_add(self, other)
    }

    /// `-self`.
    pub fn negated(&self) -> (out: Number)
        ensures
            out@.reduced(),
            out@.top() == -self@.top(),
            out@.bottom() == self@.bottom(),
            out@.numerator == self@.numerator,
            out@.denominator == self@.denominator,
    {
        proof {
            use_type_invariant(self);
            lemma_trimmed_zero(self.numerator@);
        }
        let flipped = if self.numerator.len() == 0 {
            true
        } else {
            !self.positive
        };
        let numerator = self.numerator.clone();
        let denominator = self.denominator.clone();
        assert(numerator@ =~= self.numerator@);
        assert(denominator@ =~= self.denominator@);
        Number { positive: flipped, numerator, denominator }
    }

    /// The distance of the number from zero.
    pub fn abs(&self) -> (out: Number)
        ensures
            out@.reduced(),
            out@.top() == if self@.top() < 0 {
                -self@.top()
            } else {
                self@.top()
            },
            out@.bottom() == self@.bottom(),
            out@.numerator == self@.numerator,
            out@.denominator == self@.denominator,
            out@.positive,
    {
        proof {
            use_type_invariant(self);
        }
        let numerator = self.numerator.clone();
        let denominator = self.denominator.clone();
        assert(numerator@ =~= self.numerator@);
        assert(denominator@ =~= self.denominator@);
        Number { positive: true, numerator, denominator }
    }

    /// `self - other`.
    pub fn minus(&self, other: &Number) -> (out: Number)
        ensures
            out@.reduced(),
            out@.is_sum(self@, other.negated_view()),
    {
        let flipped = other.negated();
        proof {
            use_type_invariant(self);
            use_type_invariant(&flipped);
        }
        let out = rational_add(self, &flipped);
        assert(out@.is_sum(self@, other.negated_view())) by {
            assert(flipped@.top() == other.negated_view().top());
            assert(flipped@.bottom() == other.negated_view().bottom());
        }
        out
    }

    /// The content of `-self`, as a fraction that need not be in normal form.
    pub open spec fn negated_view(&self) -> NumberView {
        self@.negated()
    }

    /// `self * other`.
    pub fn times(&self, other: &Number) -> (out: Number)
        ensures
            out@.reduced(),
            out@.is_product(self@, other@),
    {
        proof {
            use_type_invariant(self);
            use_type_invariant(other);
        }
        rational_mul(self, other)
    }

    /// `self / other`, where `other` is not zero.
    pub fn over(&self, other: &Number) -> (out: Option<Number>)
        ensures
            (out is None) == (other@.top() == 0),
            out matches Some(n) ==> n@.reduced() && n@.is_quotient(self@, other@),
    {
        proof {
            use_type_invariant(self);
            use_type_invariant(other);
        }
        if other.is_zero() {
            None
        } else {
            Some(rational_div(self, other))
        }
    }

    /// The greatest whole number that is not above `self`.
    pub fn floor(&self) -> (out: Number)
        ensures
            out@.reduced(),
            out@.whole(),
            out@.is_floor(self@),
    {
        proof {
            use_type_invariant(self);
        }
        rational_floor(self)
    }

    /// `self < other`.
    pub fn less_than(&self, other: &Number) -> (out: bool)
        ensures
            out == self@.below(other@),
    {
        proof {
            use_type_invariant(self);
            use_type_invariant(other);
        }
        rational_below(self, other)
    }

    /// `self <= other`.
    pub fn at_most(&self, other: &Number) -> (out: bool)
        ensures
            out == !other@.below(self@),
    {
        !other.less_than(self)
    }

    /// The decimal text of the number.
    pub fn to_string(&self) -> (out: String)
        ensures
            out@ == number_text(self@),
    {
        proof {
            use_type_invariant(self);
        }
        rational_text(self)
    }
}

impl Clone for Number {
    fn clone(&self) -> (out: Self)
        ensures
            out@ == self@,
    {
        proof {
            use_type_invariant(self);
        }
        let numerator = self.numerator.clone();
        let denominator = self.denominator.clone();
        assert(numerator@ =~= self.numerator@);
        assert(denominator@ =~= self.denominator@);
        Number { positive: self.positive, numerator, denominator }
    }
}

/// Conversions that lose information.
pub trait Coerce {
    /// The mathematical content that the conversions read.
    spec fn measure(&self) -> int;

    /// The whole part as a `usize`: zero below zero, the largest `usize` above it.
    fn to_usize(&self) -> (out: usize)
        ensures
            out as int == if self.measure() < 0 {
                0
            } else if self.measure() > usize::MAX as int {
                usize::MAX as int
            } else {
                self.measure()
            },
    ;

    /// The whole part as an `isize`, held to the range of `isize`.
    fn to_isize(&self) -> (out: isize)
        ensures
            out as int == if self.measure() < isize::MIN as int {
                isize::MIN as int
            } else if self.measure() > isize::MAX as int {
                isize::MAX as int
            } else {
                self.measure()
            },
    ;
}

impl Coerce for Number {
    open spec fn measure(&self) -> int {
        self@.truncated()
    }

    fn to_usize(&self) -> (out: usize) {
        proof {
            use_type_invariant(self);
        }
        rational_to_usize(self)
    }

    fn to_isize(&self) -> (out: isize) {
        proof {
            use_type_invariant(self);
        }
        rational_to_isize(self)
    }
}

/// Whether two limb vectors are equal.
fn same_limbs(left: &Vec<u64>, right: &Vec<u64>) -> (same: bool)
    ensures
        same == (left@ == right@),
{
    if left.len() != right.len() {
        return false;
    }
    let mut at: usize = 0;
    while at < left.len()
        invariant
            at <= left.len(),
            left.len() == right.len(),
            forall|i: int| 0 <= i < at ==> left@[i] == right@[i],
        decreases left.len() - at,
    {
        if left[at] != right[at] {
            return false;
        }
        at += 1;
    }
    assert(left@ =~= right@);
    true
}

/// Trimmed limbs that stand for one are the one limb `1`.
proof fn lemma_magnitude_one(limbs: Seq<u64>)
    requires
        trimmed(limbs),
        magnitude(limbs) == 1,
    ensures
        limbs == seq![1u64],
{
    let rest = limbs.drop_first();
    if rest.len() > 0 {
        assert(rest.last() == limbs.last());
        lemma_trimmed_zero(rest);
        assert(0x1_0000_0000_0000_0000 * magnitude(rest) >= 0x1_0000_0000_0000_0000)
            by (nonlinear_arith)
            requires
                magnitude(rest) >= 1,
        ;
    }
    assert(limbs =~= seq![1u64]);
}

/// The content of a whole number stands for that number over one.
pub proof fn lemma_of_whole(value: u64)
    ensures
        NumberView::of_whole(value).top() == value,
        NumberView::of_whole(value).bottom() == 1,
{
    lemma_unit(seq![1u64]);
    if value != 0 {
        assert(seq![value].drop_first() =~= Seq::<u64>::empty());
        reveal_with_fuel(magnitude, 2);
    }
}

/// A fraction in normal form is a whole number exactly when its numerator
/// is a multiple of its denominator.
pub proof fn lemma_whole_multiple(number: NumberView, factor: int)
    requires
        number.reduced(),
        number.top() == factor * number.bottom(),
    ensures
        number.whole(),
{
    let top = magnitude(number.numerator);
    let bottom = magnitude(number.denominator);
    if bottom > 1 {
        let product = factor * bottom;
        if number.positive {
            assert(factor >= 0) by (nonlinear_arith)
                requires
                    product == factor * bottom,
                    product >= 0,
                    bottom > 1,
            ;
        } else {
            assert(factor < 0) by (nonlinear_arith)
                requires
                    product == factor * bottom,
                    product < 0,
                    bottom > 1,
            ;
        }
        let scale: nat = if factor < 0 {
            (-factor) as nat
        } else {
            factor as nat
        };
        assert(top == scale * bottom) by (nonlinear_arith)
            requires
                product == factor * bottom,
                (factor >= 0 && top == product && scale == factor) || (factor < 0 && top == -product
                    && scale == -factor),
        ;
        assert(top % bottom == 0) by {
            vstd::arithmetic::div_mod::lemma_mod_multiples_basic(scale as int, bottom as int);
        }
        assert(bottom % bottom == 0) by {
            vstd::arithmetic::div_mod::lemma_mod_self_0(bottom as int);
        }
        assert(false);
    }
    lemma_magnitude_one(number.denominator);
}

/// A quotient in normal form is a whole number exactly when the dividend is
/// a whole multiple of the divisor.
pub proof fn lemma_whole_quotient(count: NumberView, way: NumberView, step: NumberView)
    requires
        count.reduced(),
        count.is_quotient(way, step),
        way.bottom() > 0,
        step.bottom() > 0,
        step.top() != 0,
    ensures
        count.whole() == way.multiple_of(step),
{
    let (ct, cb) = (count.top(), count.bottom());
    let (wt, wb) = (way.top(), way.bottom());
    let (pt, pb) = (step.top(), step.bottom());
    if count.whole() {
        lemma_whole(count);
        assert(wt * pb == ct * pt * wb) by (nonlinear_arith)
            requires
                ct * (wb * pt) == (wt * pb) * cb,
                cb == 1,
        ;
        assert(way.times_step(step, ct));
    }
    if way.multiple_of(step) {
        let k = choose|k: int| #[trigger] way.times_step(step, k);
        assert(ct == k * cb) by (nonlinear_arith)
            requires
                ct * (wb * pt) == (wt * pb) * cb,
                wt * pb == k * pt * wb,
                wb > 0,
                pt != 0,
        ;
        lemma_whole_multiple(count, k);
    }
}

/// A whole number has the denominator one.
pub proof fn lemma_whole(number: NumberView)
    requires
        number.whole(),
    ensures
        number.bottom() == 1,
{
    lemma_unit(number.denominator);
}

/// The one limb `1` stands for one.
proof fn lemma_unit(limbs: Seq<u64>)
    requires
        limbs == seq![1u64],
    ensures
        magnitude(limbs) == 1,
{
    assert(limbs.drop_first() =~= Seq::<u64>::empty());
    reveal_with_fuel(magnitude, 2);
}

/// Trimmed limbs stand for zero exactly when there are none.
proof fn lemma_trimmed_zero(limbs: Seq<u64>)
    requires
        trimmed(limbs),
    ensures
        (magnitude(limbs) == 0) == (limbs.len() == 0),
    decreases limbs.len(),
{
    if limbs.len() > 0 {
        let rest = limbs.drop_first();
        if rest.len() > 0 {
            assert(rest.last() == limbs.last());
            lemma_trimmed_zero(rest);
            assert(magnitude(rest) > 0);
            assert(0x1_0000_0000_0000_0000 * magnitude(rest) > 0) by (nonlinear_arith)
                requires
                    magnitude(rest) > 0,
            ;
        } else {
            assert(limbs[0] == limbs.last());
        }
    }
}

impl PartialEq for Number {
    fn eq(&self, other: &Self) -> (same: bool) {
        self.equals(other)
    }
}

impl vstd::std_specs::cmp::PartialEqSpecImpl for Number {
    open spec fn obeys_eq_spec() -> bool {
        true
    }

    open spec fn eq_spec(&self, other: &Self) -> bool {
        self@ == other@
    }
}

} // verus!
